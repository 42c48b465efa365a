use track_classification::misc_helpers::{convert_mode_to_int, Modality};

#[test]
fn modality_mapping_values() {
    assert_eq!(convert_mode_to_int(Modality::Minor), 0);
    assert_eq!(convert_mode_to_int(Modality::Major), 1);
    assert_eq!(convert_mode_to_int(Modality::NoResult), -1);
}

#[test]
fn modality_mapping_is_injective() {
    let all = [Modality::Minor, Modality::Major, Modality::NoResult];
    for a in all {
        for b in all {
            if convert_mode_to_int(a) == convert_mode_to_int(b) {
                assert_eq!(a, b);
            }
        }
    }
}
