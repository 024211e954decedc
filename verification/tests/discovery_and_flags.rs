use fsevents_decoder::discovery::is_archive_name;
use fsevents_decoder::discovery::select_archives;
use fsevents_decoder::flags;
use fsevents_decoder::EventFlag;

#[test]
fn archive_name_shape() {
    assert!(is_archive_name("0000000000123abc"));
    assert!(is_archive_name("ffffffffffffffff"));
    // 15 characters
    assert!(!is_archive_name("0000000000123ab"));
    // 17 characters
    assert!(!is_archive_name("0000000000123abcd"));
    // uppercase
    assert!(!is_archive_name("0000000000123ABC"));
    // not hex
    assert!(!is_archive_name("0000000000123abg"));
    assert!(!is_archive_name(""));
}

#[test]
fn discovery_of_empty_listing_is_empty() {
    let entries: Vec<(String, bool)> = Vec::new();
    assert!(select_archives(&entries).is_empty());
}

#[test]
fn discovery_filters_by_name_and_kind() {
    let entries = vec![
        // a regular file with the right name: kept
        (String::from("0000000000123abc"), true),
        // 15 hex characters: excluded
        (String::from("0000000000123ab"), true),
        // the right name but a directory: excluded
        (String::from("00000000001230ff"), false),
        // an unrelated file: excluded
        (String::from("fseventsd-uuid"), true),
        // another match: kept, order preserved
        (String::from("00000000001230aa"), true),
    ];
    let picked = select_archives(&entries);
    assert_eq!(picked, vec![
        String::from("0000000000123abc"),
        String::from("00000000001230aa"),
    ]);
}

#[test]
fn flag_rendering_names_known_bits() {
    assert_eq!(EventFlag::from_bits(0).describe(), "FSE_NONE");
    assert_eq!(
        EventFlag::from_bits(flags::FSE_CREATE_FILE).describe(),
        "FSE_CREATE_FILE"
    );
    assert_eq!(
        EventFlag::from_bits(flags::FSE_CREATE_FILE | flags::FSE_DELETE).describe(),
        "FSE_CREATE_FILE | FSE_DELETE"
    );
    assert_eq!(
        EventFlag::from_bits(
            flags::FSE_CONTENT_MODIFIED | flags::FSE_IS_FILE | flags::FSE_END_TRANSACTION
        )
        .describe(),
        "FSE_CONTENT_MODIFIED | FSE_IS_FILE | FSE_END_TRANSACTION"
    );
}

#[test]
fn flag_rendering_keeps_unknown_bits() {
    assert_eq!(EventFlag::from_bits(0x8000_0000).describe(), "0x80000000");
    assert_eq!(
        EventFlag::from_bits(flags::FSE_CREATE_FILE | 0x0800_8000).describe(),
        "FSE_CREATE_FILE | 0x08008000"
    );
}
