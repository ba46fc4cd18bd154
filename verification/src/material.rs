//! From a material's property bag to the colours a mesh is drawn with.
//!
//! A bag may name a property more than once, and may give it a value of the
//! wrong type. The last property that names a field decides it; a value of the
//! wrong type leaves the field at its default and is reported.

use vstd::prelude::*;
use vstd::string::*;
use crate::log::LogLevel;
use crate::mesh::{Material, MaterialView};
use crate::scalar::{Scalar, Vec3};
use crate::scene::{MaterialProperty, PropertyValue};
use crate::text::str_eq;
use crate::warning::{warning_views, ImportWarning, WarningView};

verus! {

pub const AMBIENT_KEY: &'static str = "$clr.ambient";

pub const DIFFUSE_KEY: &'static str = "$clr.diffuse";

pub const SPECULAR_KEY: &'static str = "$clr.specular";

pub const NAME_KEY: &'static str = "?mat.name";

pub const SHININESS_KEY: &'static str = "$mat.shininess";

/// Name of a material whose bag gives none.
pub const DEFAULT_NAME: &'static str = "Default_Mat";

/// Bit pattern of 0.2, each component of the default ambient colour.
pub const DEFAULT_AMBIENT_BITS: u32 = 0x3E4C_CCCD;

/// Bit pattern of 0.7, each component of the default diffuse colour.
pub const DEFAULT_DIFFUSE_BITS: u32 = 0x3F33_3333;

/// Bit pattern of 0.1, each component of the default specular colour.
pub const DEFAULT_SPECULAR_BITS: u32 = 0x3DCC_CCCD;

/// Bit pattern of 32, the default shininess.
pub const DEFAULT_SHININESS_BITS: u32 = 0x4200_0000;

/// How the report of a property of the wrong type begins; the key follows.
pub const MISMATCH_PREFIX: &'static str = "Property should not be this type: ";

/// The fields of a material that a property bag can set.
#[derive(Clone, Copy, Debug, PartialEq, Eq, Structural)]
pub enum MaterialField {
    Ambient,
    Diffuse,
    Specular,
    Name,
    Shininess,
}

/// The field that a property with this key sets, if any.
pub open spec fn field_of(key: Seq<char>) -> Option<MaterialField> {
    if key == AMBIENT_KEY@ {
        Some(MaterialField::Ambient)
    } else if key == DIFFUSE_KEY@ {
        Some(MaterialField::Diffuse)
    } else if key == SPECULAR_KEY@ {
        Some(MaterialField::Specular)
    } else if key == NAME_KEY@ {
        Some(MaterialField::Name)
    } else if key == SHININESS_KEY@ {
        Some(MaterialField::Shininess)
    } else {
        None
    }
}

/// The colour that a value holds: the first three numbers of an array of at
/// least three.
pub open spec fn color_value(data: PropertyValue) -> Option<Vec3> {
    match data {
        PropertyValue::Scalars(a) => if a@.len() >= 3 {
            Some(Vec3 { x: a@[0], y: a@[1], z: a@[2] })
        } else {
            None
        },
        _ => None,
    }
}

/// The number that a value holds: the first of a non-empty array.
pub open spec fn number_value(data: PropertyValue) -> Option<Scalar> {
    match data {
        PropertyValue::Scalars(a) => if a@.len() >= 1 {
            Some(a@[0])
        } else {
            None
        },
        _ => None,
    }
}

/// The text that a value holds.
pub open spec fn text_value(data: PropertyValue) -> Option<Seq<char>> {
    match data {
        PropertyValue::Text(s) => Some(s@),
        _ => None,
    }
}

/// The value has the type that `field` takes.
pub open spec fn fits(field: MaterialField, data: PropertyValue) -> bool {
    match field {
        MaterialField::Ambient | MaterialField::Diffuse | MaterialField::Specular => color_value(
            data,
        ) is Some,
        MaterialField::Name => text_value(data) is Some,
        MaterialField::Shininess => number_value(data) is Some,
    }
}

/// The property names a field and gives it a value of the wrong type.
pub open spec fn mismatched(p: MaterialProperty) -> bool {
    match field_of(p.key@) {
        Some(field) => !fits(field, p.data),
        None => false,
    }
}

/// The last property of the bag that names `field`.
pub open spec fn deciding(props: Seq<MaterialProperty>, field: MaterialField) -> Option<
    MaterialProperty,
>
    decreases props.len(),
{
    if props.len() == 0 {
        None
    } else if field_of(props.last().key@) == Some(field) {
        Some(props.last())
    } else {
        deciding(props.drop_last(), field)
    }
}

/// The colour of `field`: that of the deciding property where it holds one,
/// else `fallback`.
pub open spec fn resolved_color(
    props: Seq<MaterialProperty>,
    field: MaterialField,
    fallback: Vec3,
) -> Vec3 {
    match deciding(props, field) {
        Some(p) => match color_value(p.data) {
            Some(c) => c,
            None => fallback,
        },
        None => fallback,
    }
}

/// The shininess: that of the deciding property where it holds a number,
/// else the default.
pub open spec fn resolved_shininess(props: Seq<MaterialProperty>) -> Scalar {
    let fallback = Scalar { bits: DEFAULT_SHININESS_BITS };
    match deciding(props, MaterialField::Shininess) {
        Some(p) => match number_value(p.data) {
            Some(n) => n,
            None => fallback,
        },
        None => fallback,
    }
}

/// The name: that of the deciding property where it holds text, else the
/// default.
pub open spec fn resolved_name(props: Seq<MaterialProperty>) -> Seq<char> {
    match deciding(props, MaterialField::Name) {
        Some(p) => match text_value(p.data) {
            Some(s) => s,
            None => DEFAULT_NAME@,
        },
        None => DEFAULT_NAME@,
    }
}

/// The material that a property bag describes.
pub open spec fn resolved_material(props: Seq<MaterialProperty>) -> MaterialView {
    MaterialView {
        name: resolved_name(props),
        ambient: resolved_color(
            props,
            MaterialField::Ambient,
            Vec3::splat_spec(DEFAULT_AMBIENT_BITS),
        ),
        diffuse: resolved_color(
            props,
            MaterialField::Diffuse,
            Vec3::splat_spec(DEFAULT_DIFFUSE_BITS),
        ),
        specular: resolved_color(
            props,
            MaterialField::Specular,
            Vec3::splat_spec(DEFAULT_SPECULAR_BITS),
        ),
        shininess: resolved_shininess(props),
    }
}

/// The report of a property with this key and a value of the wrong type.
pub open spec fn mismatch_warning(key: Seq<char>) -> WarningView {
    WarningView { severity: LogLevel::Warning, message: MISMATCH_PREFIX@ + key }
}

/// One report for each mismatched property of the bag, in the bag's order.
pub open spec fn mismatch_warnings(props: Seq<MaterialProperty>) -> Seq<WarningView>
    decreases props.len(),
{
    if props.len() == 0 {
        Seq::empty()
    } else {
        let before = mismatch_warnings(props.drop_last());
        if mismatched(props.last()) {
            before.push(mismatch_warning(props.last().key@))
        } else {
            before
        }
    }
}

/// A field that no property of the bag names is decided by none.
pub proof fn lemma_unnamed_field_is_undecided(props: Seq<MaterialProperty>, field: MaterialField)
    requires
        forall|i: int| 0 <= i < props.len() ==> field_of((#[trigger] props[i]).key@) != Some(field),
    ensures
        deciding(props, field) is None,
    decreases props.len(),
{
    if props.len() > 0 {
        let front = props.drop_last();
        assert forall|i: int| 0 <= i < front.len() implies field_of((#[trigger] front[i]).key@)
            != Some(field) by {
            assert(front[i] == props[i]);
        }
        lemma_unnamed_field_is_undecided(front, field);
    }
}

/// A bag that names none of the fields describes the default material and
/// gives nothing to report.
pub proof fn lemma_foreign_bag_gives_defaults(props: Seq<MaterialProperty>)
    requires
        forall|i: int| 0 <= i < props.len() ==> field_of((#[trigger] props[i]).key@) is None,
    ensures
        resolved_material(props) == resolved_material(Seq::empty()),
        mismatch_warnings(props) == Seq::<WarningView>::empty(),
    decreases props.len(),
{
    lemma_unnamed_field_is_undecided(props, MaterialField::Ambient);
    lemma_unnamed_field_is_undecided(props, MaterialField::Diffuse);
    lemma_unnamed_field_is_undecided(props, MaterialField::Specular);
    lemma_unnamed_field_is_undecided(props, MaterialField::Name);
    lemma_unnamed_field_is_undecided(props, MaterialField::Shininess);
    if props.len() > 0 {
        let front = props.drop_last();
        assert forall|i: int| 0 <= i < front.len() implies field_of((#[trigger] front[i]).key@)
            is None by {
            assert(front[i] == props[i]);
        }
        lemma_foreign_bag_gives_defaults(front);
    }
}

/// Decides `field_of`.
pub fn classify(key: &str) -> (field: Option<MaterialField>)
    ensures
        field == field_of(key@),
{
    if str_eq(key, AMBIENT_KEY) {
        Some(MaterialField::Ambient)
    } else if str_eq(key, DIFFUSE_KEY) {
        Some(MaterialField::Diffuse)
    } else if str_eq(key, SPECULAR_KEY) {
        Some(MaterialField::Specular)
    } else if str_eq(key, NAME_KEY) {
        Some(MaterialField::Name)
    } else if str_eq(key, SHININESS_KEY) {
        Some(MaterialField::Shininess)
    } else {
        None
    }
}

/// Computes `color_value`.
pub fn read_color(data: &PropertyValue) -> (c: Option<Vec3>)
    ensures
        c == color_value(*data),
{
    match data {
        PropertyValue::Scalars(a) => {
            if a.len() >= 3 {
                Some(Vec3 { x: a[0], y: a[1], z: a[2] })
            } else {
                None
            }
        },
        _ => None,
    }
}

/// Computes `number_value`.
pub fn read_number(data: &PropertyValue) -> (n: Option<Scalar>)
    ensures
        n == number_value(*data),
{
    match data {
        PropertyValue::Scalars(a) => {
            if a.len() >= 1 {
                Some(a[0])
            } else {
                None
            }
        },
        _ => None,
    }
}

/// Resolves a property bag into a material, and reports each property whose
/// value has the wrong type.
pub fn process_material(properties: &Vec<MaterialProperty>) -> (out: (Material, Vec<ImportWarning>))
    ensures
        out.0@ == resolved_material(properties@),
        warning_views(out.1@) == mismatch_warnings(properties@),
{
    let mut name = String::from_str(DEFAULT_NAME);
    let mut ambient = Vec3::splat(DEFAULT_AMBIENT_BITS);
    let mut diffuse = Vec3::splat(DEFAULT_DIFFUSE_BITS);
    let mut specular = Vec3::splat(DEFAULT_SPECULAR_BITS);
    let mut shininess = Scalar { bits: DEFAULT_SHININESS_BITS };
    let mut warnings: Vec<ImportWarning> = Vec::new();
    let ghost props = properties@;
    let mut i: usize = 0;
    assert(warning_views(warnings@) =~= mismatch_warnings(props.take(0)));
    while i < properties.len()
        invariant
            i <= props.len(),
            props == properties@,
            (MaterialView { name: name@, ambient, diffuse, specular, shininess })
                == resolved_material(props.take(i as int)),
            warning_views(warnings@) == mismatch_warnings(props.take(i as int)),
        decreases props.len() - i,
    {
        let p = &properties[i];
        proof {
            let now = props.take(i + 1);
            assert(now.drop_last() =~= props.take(i as int));
            assert(now.last() == props[i as int]);
        }
        let ghost before = warning_views(warnings@);
        match classify(p.key.as_str()) {
            Some(MaterialField::Ambient) => {
                match read_color(&p.data) {
                    Some(c) => {
                        ambient = c;
                    },
                    None => {
                        ambient = Vec3::splat(DEFAULT_AMBIENT_BITS);
                        warnings.push(
                            ImportWarning::new(LogLevel::Warning, MISMATCH_PREFIX, p.key.as_str()),
                        );
                    },
                }
            },
            Some(MaterialField::Diffuse) => {
                match read_color(&p.data) {
                    Some(c) => {
                        diffuse = c;
                    },
                    None => {
                        diffuse = Vec3::splat(DEFAULT_DIFFUSE_BITS);
                        warnings.push(
                            ImportWarning::new(LogLevel::Warning, MISMATCH_PREFIX, p.key.as_str()),
                        );
                    },
                }
            },
            Some(MaterialField::Specular) => {
                match read_color(&p.data) {
                    Some(c) => {
                        specular = c;
                    },
                    None => {
                        specular = Vec3::splat(DEFAULT_SPECULAR_BITS);
                        warnings.push(
                            ImportWarning::new(LogLevel::Warning, MISMATCH_PREFIX, p.key.as_str()),
                        );
                    },
                }
            },
            Some(MaterialField::Name) => {
                match &p.data {
                    PropertyValue::Text(s) => {
                        name = s.clone();
                    },
                    _ => {
                        name = String::from_str(DEFAULT_NAME);
                        warnings.push(
                            ImportWarning::new(LogLevel::Warning, MISMATCH_PREFIX, p.key.as_str()),
                        );
                    },
                }
            },
            Some(MaterialField::Shininess) => {
                match read_number(&p.data) {
                    Some(n) => {
                        shininess = n;
                    },
                    None => {
                        shininess = Scalar { bits: DEFAULT_SHININESS_BITS };
                        warnings.push(
                            ImportWarning::new(LogLevel::Warning, MISMATCH_PREFIX, p.key.as_str()),
                        );
                    },
                }
            },
            None => {},
        }
        proof {
            if mismatched(props[i as int]) {
                assert(warning_views(warnings@) =~= before.push(
                    mismatch_warning(props[i as int].key@),
                ));
            } else {
                assert(warning_views(warnings@) =~= before);
            }
        }
        i = i + 1;
    }
    assert(props.take(i as int) =~= props);
    (Material { name, ambient, diffuse, specular, shininess }, warnings)
}

} // verus!
