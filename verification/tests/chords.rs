use midigenerator::chord::{map_chord, Quality};
use midigenerator::pitch::{template_scale, transpose_scale};

fn c_scale() -> Vec<u8> {
    vec![36, 38, 40, 41, 43, 45, 47, 48]
}

fn chord_of(name: &str) -> Vec<u8> {
    let out = map_chord(&c_scale(), name);
    assert!(out.recognized, "{} should be a known quality", name);
    out.notes
}

#[test]
fn chord_major_on_c() {
    assert_eq!(chord_of("maj"), vec![36, 40, 43]);
    assert_eq!(Quality::from_name("maj"), Some(Quality::Major));
    assert_eq!(Quality::Major.apply(&c_scale()), vec![36, 40, 43]);
}

#[test]
fn chord_minor_on_c() {
    assert_eq!(chord_of("m"), vec![36, 39, 43]);
    assert_eq!(Quality::from_name("m"), Some(Quality::Minor));
    assert_eq!(chord_of("min"), vec![36, 39, 43]);
    assert_eq!(Quality::from_name("min"), Some(Quality::Minor));
    assert_eq!(Quality::Minor.apply(&c_scale()), vec![36, 39, 43]);
}

#[test]
fn chord_dominant7_on_c() {
    assert_eq!(chord_of("7"), vec![36, 40, 43, 46]);
    assert_eq!(Quality::from_name("7"), Some(Quality::Dominant7));
    assert_eq!(Quality::Dominant7.apply(&c_scale()), vec![36, 40, 43, 46]);
}

#[test]
fn chord_minor7_on_c() {
    assert_eq!(chord_of("m7"), vec![36, 39, 43, 46]);
    assert_eq!(Quality::from_name("m7"), Some(Quality::Minor7));
    assert_eq!(Quality::Minor7.apply(&c_scale()), vec![36, 39, 43, 46]);
}

#[test]
fn chord_major7_on_c() {
    assert_eq!(chord_of("maj7"), vec![36, 40, 43, 47]);
    assert_eq!(Quality::from_name("maj7"), Some(Quality::Major7));
    assert_eq!(Quality::Major7.apply(&c_scale()), vec![36, 40, 43, 47]);
}

#[test]
fn chord_minormajor7_on_c() {
    assert_eq!(chord_of("minM7"), vec![36, 39, 43, 47]);
    assert_eq!(Quality::from_name("minM7"), Some(Quality::MinorMajor7));
    assert_eq!(chord_of("mM7"), vec![36, 39, 43, 47]);
    assert_eq!(Quality::from_name("mM7"), Some(Quality::MinorMajor7));
    assert_eq!(Quality::MinorMajor7.apply(&c_scale()), vec![36, 39, 43, 47]);
}

#[test]
fn chord_sixth_on_c() {
    assert_eq!(chord_of("6"), vec![36, 40, 43, 45]);
    assert_eq!(Quality::from_name("6"), Some(Quality::Sixth));
    assert_eq!(Quality::Sixth.apply(&c_scale()), vec![36, 40, 43, 45]);
}

#[test]
fn chord_minor6_on_c() {
    assert_eq!(chord_of("m6"), vec![36, 39, 43, 45]);
    assert_eq!(Quality::from_name("m6"), Some(Quality::Minor6));
    assert_eq!(Quality::Minor6.apply(&c_scale()), vec![36, 39, 43, 45]);
}

#[test]
fn chord_sixnine_on_c() {
    assert_eq!(chord_of("6/9"), vec![36, 50, 40, 43]);
    assert_eq!(Quality::from_name("6/9"), Some(Quality::SixNine));
    assert_eq!(Quality::SixNine.apply(&c_scale()), vec![36, 50, 40, 43]);
}

#[test]
fn chord_power_on_c() {
    assert_eq!(chord_of("5"), vec![36, 43]);
    assert_eq!(Quality::from_name("5"), Some(Quality::Power));
    assert_eq!(Quality::Power.apply(&c_scale()), vec![36, 43]);
}

#[test]
fn chord_ninth_on_c() {
    assert_eq!(chord_of("9"), vec![36, 50, 40, 43, 46]);
    assert_eq!(Quality::from_name("9"), Some(Quality::Ninth));
    assert_eq!(Quality::Ninth.apply(&c_scale()), vec![36, 50, 40, 43, 46]);
}

#[test]
fn chord_minor9_on_c() {
    assert_eq!(chord_of("m9"), vec![36, 50, 39, 43, 46]);
    assert_eq!(Quality::from_name("m9"), Some(Quality::Minor9));
    assert_eq!(Quality::Minor9.apply(&c_scale()), vec![36, 50, 39, 43, 46]);
}

#[test]
fn chord_major9_on_c() {
    assert_eq!(chord_of("maj9"), vec![36, 50, 40, 43, 47]);
    assert_eq!(Quality::from_name("maj9"), Some(Quality::Major9));
    assert_eq!(Quality::Major9.apply(&c_scale()), vec![36, 50, 40, 43, 47]);
}

#[test]
fn chord_eleventh_on_c() {
    assert_eq!(chord_of("11"), vec![36, 50, 40, 53, 43, 46]);
    assert_eq!(Quality::from_name("11"), Some(Quality::Eleventh));
    assert_eq!(Quality::Eleventh.apply(&c_scale()), vec![36, 50, 40, 53, 43, 46]);
}

#[test]
fn chord_minor11_on_c() {
    assert_eq!(chord_of("m11"), vec![36, 50, 39, 53, 43, 46]);
    assert_eq!(Quality::from_name("m11"), Some(Quality::Minor11));
    assert_eq!(Quality::Minor11.apply(&c_scale()), vec![36, 50, 39, 53, 43, 46]);
}

#[test]
fn chord_major11_on_c() {
    assert_eq!(chord_of("maj11"), vec![36, 50, 40, 53, 43, 47]);
    assert_eq!(Quality::from_name("maj11"), Some(Quality::Major11));
    assert_eq!(Quality::Major11.apply(&c_scale()), vec![36, 50, 40, 53, 43, 47]);
}

#[test]
fn chord_thirteenth_on_c() {
    assert_eq!(chord_of("13"), vec![36, 50, 40, 53, 43, 57, 46]);
    assert_eq!(Quality::from_name("13"), Some(Quality::Thirteenth));
    assert_eq!(Quality::Thirteenth.apply(&c_scale()), vec![36, 50, 40, 53, 43, 57, 46]);
}

#[test]
fn chord_minor13_on_c() {
    assert_eq!(chord_of("m13"), vec![36, 50, 39, 53, 43, 57, 46]);
    assert_eq!(Quality::from_name("m13"), Some(Quality::Minor13));
    assert_eq!(Quality::Minor13.apply(&c_scale()), vec![36, 50, 39, 53, 43, 57, 46]);
}

#[test]
fn chord_major13_on_c() {
    assert_eq!(chord_of("maj13"), vec![36, 50, 40, 53, 43, 57, 47]);
    assert_eq!(Quality::from_name("maj13"), Some(Quality::Major13));
    assert_eq!(Quality::Major13.apply(&c_scale()), vec![36, 50, 40, 53, 43, 57, 47]);
}

#[test]
fn chord_add2_on_c() {
    assert_eq!(chord_of("add2"), vec![36, 40, 43]);
    assert_eq!(Quality::from_name("add2"), Some(Quality::Add2));
    assert_eq!(Quality::Add2.apply(&c_scale()), vec![36, 40, 43]);
}

#[test]
fn chord_add9_on_c() {
    assert_eq!(chord_of("add9"), vec![36, 50, 40, 43]);
    assert_eq!(Quality::from_name("add9"), Some(Quality::Add9));
    assert_eq!(Quality::Add9.apply(&c_scale()), vec![36, 50, 40, 43]);
}

#[test]
fn chord_sevenflat5_on_c() {
    assert_eq!(chord_of("7b5"), vec![36, 40, 42, 46]);
    assert_eq!(Quality::from_name("7b5"), Some(Quality::SevenFlat5));
    assert_eq!(Quality::SevenFlat5.apply(&c_scale()), vec![36, 40, 42, 46]);
}

#[test]
fn chord_sevensharp5_on_c() {
    assert_eq!(chord_of("7s5"), vec![36, 40, 44, 46]);
    assert_eq!(Quality::from_name("7s5"), Some(Quality::SevenSharp5));
    assert_eq!(Quality::SevenSharp5.apply(&c_scale()), vec![36, 40, 44, 46]);
}

#[test]
fn chord_sus2_on_c() {
    assert_eq!(chord_of("sus2"), vec![36, 38, 43]);
    assert_eq!(Quality::from_name("sus2"), Some(Quality::Sus2));
    assert_eq!(Quality::Sus2.apply(&c_scale()), vec![36, 38, 43]);
}

#[test]
fn chord_sus4_on_c() {
    assert_eq!(chord_of("sus4"), vec![36, 41, 43]);
    assert_eq!(Quality::from_name("sus4"), Some(Quality::Sus4));
    assert_eq!(Quality::Sus4.apply(&c_scale()), vec![36, 41, 43]);
}

#[test]
fn chord_diminished_on_c() {
    assert_eq!(chord_of("dim"), vec![36, 39, 42]);
    assert_eq!(Quality::from_name("dim"), Some(Quality::Diminished));
    assert_eq!(Quality::Diminished.apply(&c_scale()), vec![36, 39, 42]);
}

#[test]
fn chord_diminished7_on_c() {
    assert_eq!(chord_of("dim7"), vec![36, 39, 42, 45]);
    assert_eq!(Quality::from_name("dim7"), Some(Quality::Diminished7));
    assert_eq!(Quality::Diminished7.apply(&c_scale()), vec![36, 39, 42, 45]);
}

#[test]
fn chord_halfdiminished_on_c() {
    assert_eq!(chord_of("m7b5"), vec![36, 39, 42, 46]);
    assert_eq!(Quality::from_name("m7b5"), Some(Quality::HalfDiminished));
    assert_eq!(Quality::HalfDiminished.apply(&c_scale()), vec![36, 39, 42, 46]);
}

#[test]
fn chord_augmented_on_c() {
    assert_eq!(chord_of("aug"), vec![36, 40, 44]);
    assert_eq!(Quality::from_name("aug"), Some(Quality::Augmented));
    assert_eq!(Quality::Augmented.apply(&c_scale()), vec![36, 40, 44]);
}

#[test]
fn chord_augmented7_on_c() {
    assert_eq!(chord_of("aug7"), vec![36, 40, 44, 46]);
    assert_eq!(Quality::from_name("aug7"), Some(Quality::Augmented7));
    assert_eq!(Quality::Augmented7.apply(&c_scale()), vec![36, 40, 44, 46]);
}

#[test]
fn unknown_quality_gives_the_major_triad() {
    let bogus = map_chord(&c_scale(), "bogus");
    let major = map_chord(&c_scale(), "maj");
    assert!(!bogus.recognized);
    assert!(major.recognized);
    assert_eq!(bogus.notes, major.notes);
    assert_eq!(bogus.notes, vec![36, 40, 43]);
    assert_eq!(Quality::from_name("bogus"), None);
}

#[test]
fn quality_names_are_case_sensitive_and_exact() {
    assert_eq!(Quality::from_name("Maj"), None);
    assert_eq!(Quality::from_name("major"), None);
    assert_eq!(Quality::from_name("M"), None);
    assert_eq!(Quality::from_name(""), None);
    assert_eq!(Quality::from_name("7-5"), None);
    assert_eq!(Quality::from_name("7+5"), None);
    assert_eq!(Quality::from_name("mm7"), None);
}

#[test]
fn chord_never_holds_the_octave() {
    let marked: Vec<u8> = vec![10, 20, 30, 40, 50, 60, 70, 80];
    assert_eq!(Quality::Major13.apply(&marked), vec![10, 32, 30, 52, 50, 72, 70]);
    assert_eq!(Quality::Thirteenth.apply(&marked), vec![10, 32, 30, 52, 50, 72, 69]);
    assert_eq!(Quality::Diminished7.apply(&marked), vec![10, 29, 49, 60]);
    assert_eq!(Quality::Sus2.apply(&marked), vec![10, 20, 50]);
    assert_eq!(Quality::Sus4.apply(&marked), vec![10, 40, 50]);
    assert_eq!(Quality::Power.apply(&marked), vec![10, 50]);
}

#[test]
fn unknown_quality_accepts_any_eight_bytes() {
    let extreme: Vec<u8> = vec![255, 0, 0, 255, 255, 255, 0, 7];
    let out = map_chord(&extreme, "bogus");
    assert_eq!(out.notes, vec![255, 0, 255]);
}

#[test]
fn chords_bend_at_the_edge_of_the_byte_range() {
    let edge: Vec<u8> = vec![0, 243, 1, 243, 1, 243, 1, 0];
    assert_eq!(Quality::Minor13.apply(&edge), vec![0, 255, 0, 255, 1, 255, 0]);
    let top: Vec<u8> = vec![255, 0, 255, 0, 254, 0, 255, 0];
    assert_eq!(Quality::Augmented.apply(&top), vec![255, 255, 255]);
}

#[test]
fn chords_follow_the_root() {
    let g = transpose_scale(&template_scale(), "G").notes;
    assert_eq!(map_chord(&g, "7").notes, vec![43, 47, 50, 53]);
    let b = transpose_scale(&template_scale(), "B").notes;
    assert_eq!(map_chord(&b, "maj13").notes, vec![47, 61, 51, 64, 54, 68, 58]);
}
