use website_pictures_server::codec::{decode, encode};
use website_pictures_server::errors::{ResponseClass, StoreError};

#[test]
fn plain_names_pass_through() {
    assert_eq!(encode("Weddings2023"), "Weddings2023");
    assert_eq!(decode("Weddings2023").unwrap(), "Weddings2023");
}

#[test]
fn space_is_encoded_fixed_width() {
    assert_eq!(encode("A B"), "A%000020B");
    assert_eq!(decode("A%000020B").unwrap(), "A B");
}

#[test]
fn round_trip_space_name() {
    let name = "Summer 2023";
    assert_eq!(decode(&encode(name)).unwrap(), name);
}

#[test]
fn round_trip_reserved_url_characters() {
    for name in ["a/b", "a?b", "x#y&z", "50% off", "q=v+w", "semi;colon", "..", "."] {
        assert_eq!(decode(&encode(name)).unwrap(), name, "round trip failed for {name}");
    }
}

#[test]
fn round_trip_unicode() {
    for name in ["Café Déco", "Hochzeit größer", "写真集", "🌄 sunrise"] {
        assert_eq!(decode(&encode(name)).unwrap(), name, "round trip failed for {name}");
    }
}

#[test]
fn round_trip_empty_name() {
    assert_eq!(encode(""), "");
    assert_eq!(decode("").unwrap(), "");
}

#[test]
fn percent_itself_is_encoded() {
    assert_eq!(encode("%"), "%000025");
    assert_eq!(decode(&encode("%")).unwrap(), "%");
}

#[test]
fn four_byte_scalar_encodes_to_its_code_point() {
    assert_eq!(encode("🌄"), "%01F304");
    assert_eq!(decode("%01F304").unwrap(), "🌄");
}

#[test]
fn unencoded_punctuation_decodes_as_itself() {
    assert_eq!(decode("a.b-c_d").unwrap(), "a.b-c_d");
}

#[test]
fn truncated_escape_is_invalid() {
    assert_eq!(decode("%").unwrap_err(), StoreError::InvalidInput);
    assert_eq!(decode("%12").unwrap_err(), StoreError::InvalidInput);
    assert_eq!(decode("abc%00002").unwrap_err(), StoreError::InvalidInput);
}

#[test]
fn non_hex_digits_are_invalid() {
    assert_eq!(decode("%GGGGGG").unwrap_err(), StoreError::InvalidInput);
    assert_eq!(decode("%00002g").unwrap_err(), StoreError::InvalidInput);
}

#[test]
fn surrogate_code_point_is_invalid() {
    assert_eq!(decode("%00D800").unwrap_err(), StoreError::InvalidInput);
}

#[test]
fn out_of_range_code_point_is_invalid() {
    assert_eq!(decode("%FFFFFF").unwrap_err(), StoreError::InvalidInput);
}

#[test]
fn error_classes_map_as_designed() {
    assert_eq!(StoreError::InvalidInput.response_class(), ResponseClass::ClientError);
    assert_eq!(StoreError::PathViolation.response_class(), ResponseClass::ClientError);
    assert_eq!(StoreError::NotFound.response_class(), ResponseClass::MissingResource);
    assert_eq!(StoreError::StoreUnavailable.response_class(), ResponseClass::ServerError);
    assert_eq!(StoreError::QueryFailed.response_class(), ResponseClass::ServerError);
    assert_eq!(StoreError::DecodeFailed.response_class(), ResponseClass::ServerError);
    assert_eq!(StoreError::Internal.response_class(), ResponseClass::ServerError);
}

#[test]
fn lower_case_hex_digits_are_invalid() {
    assert_eq!(decode("%00002f").unwrap_err(), StoreError::InvalidInput);
}
