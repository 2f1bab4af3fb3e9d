use midigenerator::pitch::{template_scale, transpose_scale, Note};
use midigenerator::scale::map_scale;

const TEMPLATE: [u8; 8] = [36, 38, 40, 41, 43, 45, 47, 48];

#[test]
fn template_is_the_major_scale_from_36() {
    assert_eq!(template_scale(), TEMPLATE.to_vec());
}

#[test]
fn semitone_offsets_of_the_twelve_roots() {
    assert_eq!(Note::C.semitone(), 0);
    assert_eq!(Note::Cs.semitone(), 1);
    assert_eq!(Note::D.semitone(), 2);
    assert_eq!(Note::Ds.semitone(), 3);
    assert_eq!(Note::E.semitone(), 4);
    assert_eq!(Note::F.semitone(), 5);
    assert_eq!(Note::Fs.semitone(), 6);
    assert_eq!(Note::G.semitone(), 7);
    assert_eq!(Note::Gs.semitone(), 8);
    assert_eq!(Note::A.semitone(), 9);
    assert_eq!(Note::As.semitone(), 10);
    assert_eq!(Note::B.semitone(), 11);
}

#[test]
fn root_names_resolve() {
    assert_eq!(Note::from_name("C"), Some(Note::C));
    assert_eq!(Note::from_name("Cs"), Some(Note::Cs));
    assert_eq!(Note::from_name("D"), Some(Note::D));
    assert_eq!(Note::from_name("Ds"), Some(Note::Ds));
    assert_eq!(Note::from_name("E"), Some(Note::E));
    assert_eq!(Note::from_name("F"), Some(Note::F));
    assert_eq!(Note::from_name("Fs"), Some(Note::Fs));
    assert_eq!(Note::from_name("G"), Some(Note::G));
    assert_eq!(Note::from_name("Gs"), Some(Note::Gs));
    assert_eq!(Note::from_name("A"), Some(Note::A));
    assert_eq!(Note::from_name("As"), Some(Note::As));
    assert_eq!(Note::from_name("B"), Some(Note::B));
    assert_eq!(Note::from_name("c"), None);
    assert_eq!(Note::from_name("C#"), None);
    assert_eq!(Note::from_name("Db"), None);
    assert_eq!(Note::from_name("H"), None);
    assert_eq!(Note::from_name(""), None);
    assert_eq!(Note::from_name("Cs "), None);
}

#[test]
fn root_c_changes_nothing() {
    let out = transpose_scale(&template_scale(), "C");
    assert!(out.recognized);
    assert_eq!(out.notes, TEMPLATE.to_vec());
}

#[test]
fn every_root_adds_its_offset() {
    let roots = ["C", "Cs", "D", "Ds", "E", "F", "Fs", "G", "Gs", "A", "As", "B"];
    for (offset, root) in roots.iter().enumerate() {
        let out = transpose_scale(&template_scale(), root);
        assert!(out.recognized);
        let expected: Vec<u8> = TEMPLATE.iter().map(|p| p + offset as u8).collect();
        assert_eq!(out.notes, expected, "root {}", root);
    }
}

#[test]
fn transpose_to_fs_exact() {
    let out = transpose_scale(&template_scale(), "Fs");
    assert_eq!(out.notes, vec![42, 44, 46, 47, 49, 51, 53, 54]);
}

#[test]
fn transpose_then_major_is_the_transposition() {
    let roots = ["C", "Cs", "D", "Ds", "E", "F", "Fs", "G", "Gs", "A", "As", "B"];
    for (offset, root) in roots.iter().enumerate() {
        let moved = transpose_scale(&template_scale(), root).notes;
        let scale = map_scale(&moved, "major").notes;
        for i in 0..8 {
            assert_eq!(scale[i], TEMPLATE[i] + offset as u8);
        }
        if *root == "C" {
            assert_eq!(scale, TEMPLATE.to_vec());
        }
    }
}

#[test]
fn unknown_root_leaves_the_template() {
    let out = transpose_scale(&template_scale(), "X");
    assert!(!out.recognized);
    assert_eq!(out.notes, TEMPLATE.to_vec());
    assert_eq!(out.notes, transpose_scale(&template_scale(), "C").notes);
}

#[test]
fn transpose_keeps_count_and_order_of_any_list() {
    assert_eq!(transpose_scale(&vec![], "B").notes, Vec::<u8>::new());
    assert_eq!(transpose_scale(&vec![9, 3, 244], "B").notes, vec![20, 14, 255]);
    assert_eq!(transpose_scale(&vec![255, 0], "Q").notes, vec![255, 0]);
}
