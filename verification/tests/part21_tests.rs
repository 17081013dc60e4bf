use waffle_format::assembly::{part_label, PartRef};
use waffle_format::part21::{logical, product_name, product_skeleton, step_string, EntityList};

#[test]
fn step_strings_double_quotes_and_replace_non_ascii() {
    assert_eq!(step_string("cube.step"), "cube.step");
    assert_eq!(step_string("it's"), "it''s");
    assert_eq!(step_string("Würfel\t1"), "W_rfel_1");
    assert_eq!(step_string(""), "");
    assert_eq!(logical(true), ".T.");
    assert_eq!(logical(false), ".F.");
}

#[test]
fn the_product_is_the_file_name_without_its_extension() {
    assert_eq!(product_name("box.step"), "box");
    assert_eq!(product_name("box.stp"), "box");
    assert_eq!(product_name("box.STEP"), "box.STEP");
    assert_eq!(product_name(".step"), "Part");
    assert_eq!(product_name(""), "Part");
    assert_eq!(product_name("a.stp.step"), "a.stp");
}

#[test]
fn a_file_is_its_header_its_numbered_entities_and_its_trailer() {
    let mut w = EntityList::new();
    assert_eq!(w.add("CARTESIAN_POINT('',(0.,0.,0.))".to_string()), 1);
    assert_eq!(w.add("VERTEX_POINT('',#1)".to_string()), 2);
    let text = w.render("it's.step");
    assert_eq!(
        text,
        "ISO-10303-21;\nHEADER;\n\
FILE_DESCRIPTION(('Waffle Iron kernel-v2 exact B-Rep export'),'2;1');\n\
FILE_NAME('it''s.step','',(''),(''),'Waffle Iron kernel-v2','Waffle Iron','');\n\
FILE_SCHEMA(('AUTOMOTIVE_DESIGN { 1 0 10303 214 1 1 1 1 }'));\n\
ENDSEC;\nDATA;\n\
#1 = CARTESIAN_POINT('',(0.,0.,0.));\n\
#2 = VERTEX_POINT('',#1);\n\
ENDSEC;\nEND-ISO-10303-21;\n"
    );
}

#[test]
fn parts_are_labelled_by_tab_and_source() {
    let here = PartRef { tab_id: "t1".to_string(), source_id: None };
    assert_eq!(part_label(&here), "t1");
    let there = PartRef { tab_id: "t2".to_string(), source_id: Some(0xff) };
    assert_eq!(part_label(&there), "t2@00000000-0000-0000-0000-0000000000ff");
}

#[test]
fn the_product_skeleton_numbers_its_entities_after_the_existing_ones() {
    let mut w = EntityList::new();
    w.add("X".to_string());
    let s = product_skeleton(&mut w, "it's", "1.E-6", "0.", "1.");
    assert_eq!((s.product_definition_shape, s.context, s.world_axis), (10, 15, 19));
    let text = w.render("a.step");
    assert!(text.contains("#2 = APPLICATION_CONTEXT('core data for automotive mechanical design processes');\n"));
    assert!(text.contains("#3 = APPLICATION_PROTOCOL_DEFINITION('international standard','automotive_design',2010,#2);\n"));
    assert!(text.contains("#5 = PRODUCT('it''s','it''s','',(#4));\n"));
    assert!(text.contains("#9 = PRODUCT_DEFINITION('design','',#7,#8);\n"));
    assert!(text.contains("#14 = UNCERTAINTY_MEASURE_WITH_UNIT(LENGTH_MEASURE(1.E-6),#11,'distance_accuracy_value','confusion accuracy');\n"));
    assert!(text.contains("#15 = ( GEOMETRIC_REPRESENTATION_CONTEXT(3) GLOBAL_UNCERTAINTY_ASSIGNED_CONTEXT((#14)) GLOBAL_UNIT_ASSIGNED_CONTEXT((#11,#12,#13)) REPRESENTATION_CONTEXT('','3D') );\n"));
    assert!(text.contains("#17 = DIRECTION('',(0.,0.,1.));\n"));
    assert!(text.contains("#19 = AXIS2_PLACEMENT_3D('',#16,#17,#18);\nENDSEC;"));
}
