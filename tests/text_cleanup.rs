use cephalon::text::clean_ocr_output;

#[test]
fn cleanup_restores_word_boundaries() {
    assert_eq!(
        clean_ocr_output("BaruukPrimeChassisBlueprint"),
        "Baruuk Prime Chassis Blueprint"
    );
    assert_eq!(clean_ocr_output("ShadePrimeSystems"), "Shade Prime Systems");
}

#[test]
fn cleanup_trims_outer_white_space() {
    assert_eq!(clean_ocr_output("  \n Lex Prime Receiver \t"), "Lex Prime Receiver");
}

#[test]
fn cleanup_mends_known_misreads() {
    assert_eq!(clean_ocr_output("BurstenPrimieRecelver"), "Burston Prime Receiver");
    assert_eq!(clean_ocr_output("Oberon Primie Blueprint"), "Oberon Prime Blueprint");
}

#[test]
fn cleanup_leaves_space_and_dollar_boundaries() {
    assert_eq!(clean_ocr_output("a Bc"), "a Bc");
    assert_eq!(clean_ocr_output("$Abc"), "$Abc");
    assert_eq!(clean_ocr_output("x$Y"), "x$Y");
    assert_eq!(clean_ocr_output("ABC"), "A B C");
}

#[test]
fn cleanup_of_empty_text_is_empty() {
    assert_eq!(clean_ocr_output(""), "");
    assert_eq!(clean_ocr_output("   "), "");
}
