use rust_gl::log::LogLevel;
use rust_gl::material::{classify, process_material, read_color, read_number, MaterialField};
use rust_gl::scalar::{Scalar, Vec3};
use rust_gl::scene::{MaterialProperty, PropertyValue};

fn s(x: f32) -> Scalar {
    Scalar::from_bits(x.to_bits())
}

fn v(x: f32, y: f32, z: f32) -> Vec3 {
    Vec3 { x: s(x), y: s(y), z: s(z) }
}

fn scalars(key: &str, values: &[f32]) -> MaterialProperty {
    MaterialProperty {
        key: key.to_string(),
        data: PropertyValue::Scalars(values.iter().map(|x| s(*x)).collect()),
    }
}

fn text(key: &str, value: &str) -> MaterialProperty {
    MaterialProperty { key: key.to_string(), data: PropertyValue::Text(value.to_string()) }
}

#[test]
fn empty_bag_gives_the_defaults() {
    let (m, warnings) = process_material(&vec![]);
    assert_eq!(m.name, "Default_Mat");
    assert_eq!(m.ambient, v(0.2, 0.2, 0.2));
    assert_eq!(m.diffuse, v(0.7, 0.7, 0.7));
    assert_eq!(m.specular, v(0.1, 0.1, 0.1));
    assert_eq!(f32::from_bits(m.shininess.bits), 32.0);
    assert!(warnings.is_empty());
}

#[test]
fn every_named_property_is_read() {
    let bag = vec![
        scalars("$clr.ambient", &[0.1, 0.2, 0.3]),
        scalars("$clr.diffuse", &[0.4, 0.5, 0.6, 1.0]),
        scalars("$clr.specular", &[0.7, 0.8, 0.9]),
        text("?mat.name", "Brass"),
        scalars("$mat.shininess", &[12.5]),
        scalars("$mat.opacity", &[1.0]),
    ];
    let (m, warnings) = process_material(&bag);
    assert_eq!(m.name, "Brass");
    assert_eq!(m.ambient, v(0.1, 0.2, 0.3));
    assert_eq!(m.diffuse, v(0.4, 0.5, 0.6));
    assert_eq!(m.specular, v(0.7, 0.8, 0.9));
    assert_eq!(f32::from_bits(m.shininess.bits), 12.5);
    assert!(warnings.is_empty());
}

#[test]
fn absent_properties_keep_their_defaults() {
    let (m, warnings) = process_material(&vec![scalars("$clr.diffuse", &[1.0, 0.0, 0.0])]);
    assert_eq!(m.name, "Default_Mat");
    assert_eq!(m.ambient, v(0.2, 0.2, 0.2));
    assert_eq!(m.diffuse, v(1.0, 0.0, 0.0));
    assert_eq!(m.specular, v(0.1, 0.1, 0.1));
    assert_eq!(m.shininess, s(32.0));
    assert!(warnings.is_empty());
}

#[test]
fn the_last_property_of_a_key_decides() {
    let bag = vec![
        scalars("$clr.ambient", &[1.0, 1.0, 1.0]),
        text("?mat.name", "first"),
        scalars("$clr.ambient", &[0.5, 0.25, 0.125]),
        text("?mat.name", "second"),
    ];
    let (m, _) = process_material(&bag);
    assert_eq!(m.ambient, v(0.5, 0.25, 0.125));
    assert_eq!(m.name, "second");
}

#[test]
fn a_value_of_the_wrong_type_is_reported_and_defaulted() {
    let bag = vec![
        scalars("$clr.ambient", &[0.9, 0.9, 0.9]),
        text("$clr.ambient", "red"),
        scalars("?mat.name", &[1.0]),
        MaterialProperty { key: "$mat.shininess".to_string(), data: PropertyValue::Integers(vec![3]) },
        MaterialProperty { key: "$clr.specular".to_string(), data: PropertyValue::Bytes(vec![1, 2, 3]) },
        scalars("$clr.diffuse", &[0.3, 0.3]),
    ];
    let (m, warnings) = process_material(&bag);
    assert_eq!(m.ambient, v(0.2, 0.2, 0.2));
    assert_eq!(m.name, "Default_Mat");
    assert_eq!(m.shininess, s(32.0));
    assert_eq!(m.specular, v(0.1, 0.1, 0.1));
    assert_eq!(m.diffuse, v(0.7, 0.7, 0.7));
    let messages: Vec<&str> = warnings.iter().map(|w| w.message.as_str()).collect();
    assert_eq!(
        messages,
        vec![
            "Property should not be this type: $clr.ambient",
            "Property should not be this type: ?mat.name",
            "Property should not be this type: $mat.shininess",
            "Property should not be this type: $clr.specular",
            "Property should not be this type: $clr.diffuse",
        ]
    );
    assert!(warnings.iter().all(|w| w.severity == LogLevel::Warning));
}

#[test]
fn a_later_good_value_overrides_an_earlier_bad_one() {
    let bag = vec![text("$clr.diffuse", "blue"), scalars("$clr.diffuse", &[0.0, 0.0, 1.0])];
    let (m, warnings) = process_material(&bag);
    assert_eq!(m.diffuse, v(0.0, 0.0, 1.0));
    assert_eq!(warnings.len(), 1);
}

#[test]
fn an_empty_shininess_array_is_a_mismatch() {
    let (m, warnings) = process_material(&vec![scalars("$mat.shininess", &[])]);
    assert_eq!(m.shininess, s(32.0));
    assert_eq!(warnings.len(), 1);
    assert_eq!(warnings[0].message, "Property should not be this type: $mat.shininess");
}

#[test]
fn keys_are_classified_exactly() {
    assert_eq!(classify("$clr.ambient"), Some(MaterialField::Ambient));
    assert_eq!(classify("$clr.diffuse"), Some(MaterialField::Diffuse));
    assert_eq!(classify("$clr.specular"), Some(MaterialField::Specular));
    assert_eq!(classify("?mat.name"), Some(MaterialField::Name));
    assert_eq!(classify("$mat.shininess"), Some(MaterialField::Shininess));
    assert_eq!(classify("$clr.ambien"), None);
    assert_eq!(classify("$clr.ambient "), None);
    assert_eq!(classify(""), None);
    assert_eq!(classify("$CLR.AMBIENT"), None);
}

#[test]
fn values_are_read_by_their_type() {
    let three = PropertyValue::Scalars(vec![s(1.0), s(2.0), s(3.0)]);
    assert_eq!(read_color(&three), Some(v(1.0, 2.0, 3.0)));
    assert_eq!(read_number(&three), Some(s(1.0)));
    let two = PropertyValue::Scalars(vec![s(1.0), s(2.0)]);
    assert_eq!(read_color(&two), None);
    assert_eq!(read_number(&two), Some(s(1.0)));
    assert_eq!(read_color(&PropertyValue::Text("x".to_string())), None);
    assert_eq!(read_number(&PropertyValue::Integers(vec![1])), None);
}
