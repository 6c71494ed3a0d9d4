use signal_frame::namespace;
use signal_frame::{NamespaceSection, SECTION_CUTOFF};

#[test]
fn section_cutoff_is_decimal_one_hundred() {
    assert_eq!(SECTION_CUTOFF, 100);
}

#[test]
fn classify_maps_small_section_to_lower_hundred_values() {
    for byte in 0x00..SECTION_CUTOFF {
        assert_eq!(namespace::classify(byte), NamespaceSection::Small);
        assert_eq!(NamespaceSection::classify(byte), NamespaceSection::Small);
    }
}

#[test]
fn classify_maps_big_section_to_upper_values() {
    for byte in SECTION_CUTOFF..=u8::MAX {
        assert_eq!(namespace::classify(byte), NamespaceSection::Big);
        assert_eq!(NamespaceSection::classify(byte), NamespaceSection::Big);
    }
}

#[test]
fn classify_splits_at_ninety_nine_and_one_hundred() {
    assert_eq!(namespace::classify(99), NamespaceSection::Small);
    assert_eq!(namespace::classify(100), NamespaceSection::Big);
    assert_eq!(namespace::classify(0x63), NamespaceSection::Small);
    assert_eq!(namespace::classify(0x64), NamespaceSection::Big);
}
