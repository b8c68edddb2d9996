use displayer::codec::{decode_token, encode_path};
use displayer::path_filter::is_candidate;

#[test]
fn encodes_separators() {
    let t = encode_path(&b"/photos/trip/a.jpg".to_vec()).unwrap();
    assert_eq!(t, b"slashphotosslashtripslasha.jpg".to_vec());
}

#[test]
fn round_trips_plain_paths() {
    let cases: Vec<&[u8]> = vec![
        b"/photos/trip/a.jpg",
        b"/",
        b"",
        b"relative.png",
        b"/with spaces/and.dots/x.JPEG",
        b"/sla/h",
        b"/sl/ash",
    ];
    for p in cases {
        let t = encode_path(&p.to_vec()).unwrap();
        assert_eq!(decode_token(&t), p.to_vec());
    }
}

#[test]
fn rejects_paths_holding_the_sentinel() {
    assert!(encode_path(&b"/photos/slash/a.jpg".to_vec()).is_none());
    assert!(encode_path(&b"slash".to_vec()).is_none());
    assert!(encode_path(&b"xslashy".to_vec()).is_none());
    assert!(encode_path(&b"slas".to_vec()).is_some());
}

#[test]
fn decodes_tokens() {
    assert_eq!(decode_token(&b"slashdataslashb.png".to_vec()), b"/data/b.png".to_vec());
    assert_eq!(decode_token(&b"plain".to_vec()), b"plain".to_vec());
    // Greedy scan: the first five-byte match is taken.
    assert_eq!(decode_token(&b"slaslashh".to_vec()), b"sla/h".to_vec());
}

#[test]
fn accepts_allowed_extensions() {
    assert!(is_candidate(&b"/d/a.jpg".to_vec()));
    assert!(is_candidate(&b"/d/a.JPG".to_vec()));
    assert!(is_candidate(&b"/d/a.jPeG".to_vec()));
    assert!(is_candidate(&b"/d/a.png".to_vec()));
    assert!(is_candidate(&b"b.PNG".to_vec()));
    assert!(is_candidate(&b"/d/archive.tar.jpg".to_vec()));
}

#[test]
fn rejects_other_entries() {
    assert!(!is_candidate(&b"/d/a.txt".to_vec()));
    assert!(!is_candidate(&b"/d/a.jpeg2".to_vec()));
    assert!(!is_candidate(&b"/d/noextension".to_vec()));
    assert!(!is_candidate(&b"/d/trailingdot.".to_vec()));
    assert!(!is_candidate(&b"/d/.jpg".to_vec()));
    assert!(!is_candidate(&b"/d/.hidden".to_vec()));
    assert!(!is_candidate(&b"".to_vec()));
    assert!(!is_candidate(&b"/d/jpg".to_vec()));
}
