//! The layout layer: flags, property types and the distance arena.

use rofi_plugin_abi::types::property_type_index;
use rofi_plugin_abi::types::property_type_name;
use rofi_plugin_abi::types::property_type_names;
use rofi_plugin_abi::types::property_value_type;
use rofi_plugin_abi::types::DistanceArena;
use rofi_plugin_abi::types::HostDouble;
use rofi_plugin_abi::types::Property;
use rofi_plugin_abi::types::PropertyType;
use rofi_plugin_abi::types::PropertyLink;
use rofi_plugin_abi::types::PropertyValue;
use rofi_plugin_abi::types::RofiCursorType;
use rofi_plugin_abi::types::RofiDistanceModifier;
use rofi_plugin_abi::types::RofiHighlightStyle;
use rofi_plugin_abi::types::RofiIntMatcher;
use rofi_plugin_abi::types::RofiPixelUnit;
use rofi_plugin_abi::types::RofiDistanceUnit;
use rofi_plugin_abi::types::WindowLocation;
use rofi_plugin_abi::types::HIGHLIGHT_ALL;
use rofi_plugin_abi::types::HIGHLIGHT_BOLD;
use rofi_plugin_abi::types::HIGHLIGHT_UNDERLINE;
use rofi_plugin_abi::types::PROPERTY_TYPE_COUNT;
use rofi_plugin_abi::types::WL_CENTER;
use rofi_plugin_abi::types::WL_EAST;
use rofi_plugin_abi::types::WL_NORTH;
use rofi_plugin_abi::types::WL_NORTH_EAST;
use rofi_plugin_abi::types::WL_NORTH_WEST;
use rofi_plugin_abi::types::WL_SOUTH;
use rofi_plugin_abi::types::WL_SOUTH_EAST;
use rofi_plugin_abi::types::WL_SOUTH_WEST;
use rofi_plugin_abi::types::WL_WEST;

#[test]
fn window_location_composites_decode() {
    assert_eq!(WL_NORTH_WEST, WL_NORTH | WL_WEST);
    assert_eq!(WL_NORTH_EAST, WL_NORTH | WL_EAST);
    assert_eq!(WL_SOUTH_EAST, WL_SOUTH | WL_EAST);
    assert_eq!(WL_SOUTH_WEST, WL_SOUTH | WL_WEST);
    // composites contain exactly their two sides
    assert_eq!(WL_NORTH_WEST & WL_EAST, 0);
    assert_eq!(WL_NORTH_WEST & WL_SOUTH, 0);
    assert_eq!(WL_SOUTH_EAST & WL_NORTH, 0);
    assert_eq!(WL_SOUTH_EAST & WL_WEST, 0);
    // no aliasing among the nine named locations
    let named = [
        WL_CENTER,
        WL_NORTH,
        WL_EAST,
        WL_SOUTH,
        WL_WEST,
        WL_NORTH_WEST,
        WL_NORTH_EAST,
        WL_SOUTH_EAST,
        WL_SOUTH_WEST,
    ];
    for (i, a) in named.iter().enumerate() {
        for (j, b) in named.iter().enumerate() {
            if i != j {
                assert_ne!(a, b);
            }
        }
    }
}

#[test]
fn window_location_flag_operations() {
    let north = WindowLocation::from_bits(WL_NORTH).unwrap();
    let west = WindowLocation::from_bits(WL_WEST).unwrap();
    let corner = north.union(west);
    assert_eq!(corner.bits, WL_NORTH_WEST);
    assert!(corner.contains(north));
    assert!(corner.contains(west));
    assert!(!north.contains(corner));
    assert!(WindowLocation::from_bits(16).is_none());
    assert_eq!(WindowLocation::center().bits, WL_CENTER);
}

#[test]
fn highlight_flag_operations() {
    let bold = RofiHighlightStyle::from_bits(HIGHLIGHT_BOLD).unwrap();
    let under = RofiHighlightStyle::from_bits(HIGHLIGHT_UNDERLINE).unwrap();
    let both = bold.union(under);
    assert_eq!(both.bits, HIGHLIGHT_BOLD | HIGHLIGHT_UNDERLINE);
    assert!(both.contains(bold));
    assert!(RofiHighlightStyle::from_bits(HIGHLIGHT_ALL).is_some());
    assert!(RofiHighlightStyle::from_bits(HIGHLIGHT_ALL + 1).is_none());
    assert_eq!(RofiHighlightStyle::empty().bits, 0);
}

#[test]
fn property_type_name_table_is_exact() {
    let names = property_type_names();
    assert_eq!(names.len(), PROPERTY_TYPE_COUNT);
    let all = [
        PropertyType::Integer,
        PropertyType::Double,
        PropertyType::Text,
        PropertyType::Char,
        PropertyType::Boolean,
        PropertyType::Color,
        PropertyType::Image,
        PropertyType::Padding,
        PropertyType::Link,
        PropertyType::Position,
        PropertyType::Highlight,
        PropertyType::List,
        PropertyType::Orientation,
        PropertyType::Cursor,
        PropertyType::Inherit,
    ];
    assert_eq!(all.len(), PROPERTY_TYPE_COUNT);
    for (i, t) in all.iter().enumerate() {
        let idx = property_type_index(*t);
        assert!(idx < PROPERTY_TYPE_COUNT);
        assert_eq!(idx, i);
        assert_eq!(names[idx], property_type_name(*t));
    }
    assert_eq!(property_type_name(PropertyType::Text), "String");
    assert_eq!(property_type_name(PropertyType::Link), "Reference");
}

#[test]
fn property_values_carry_their_tag() {
    let p = Property { name: String::from("width"), value: PropertyValue::Integer(10) };
    assert_eq!(p.property_type(), PropertyType::Integer);
    assert_eq!(p.name_of_type(), "Integer");
    let s = Property { name: String::from("font"), value: PropertyValue::Text(String::from("mono")) };
    assert_eq!(s.property_type(), PropertyType::Text);
    assert_eq!(s.name_of_type(), "String");
    assert_eq!(property_value_type(&PropertyValue::Inherit), PropertyType::Inherit);
    assert_eq!(
        property_value_type(&PropertyValue::Boolean(true)),
        PropertyType::Boolean
    );
}

#[test]
fn distance_arena_builds_finite_trees() {
    let mut arena = DistanceArena::new();
    let left = arena.push_unit(RofiDistanceUnit {
        distance: HostDouble { bits: (10.0f64).to_bits() },
        unit_type: RofiPixelUnit::Px,
        mod_type: RofiDistanceModifier::NoModifier,
        left: None,
        right: None,
    });
    let right = arena.push_unit(RofiDistanceUnit {
        distance: HostDouble { bits: (2.0f64).to_bits() },
        unit_type: RofiPixelUnit::Em,
        mod_type: RofiDistanceModifier::NoModifier,
        left: None,
        right: None,
    });
    let sum = arena.push_unit(RofiDistanceUnit {
        distance: HostDouble { bits: 0 },
        unit_type: RofiPixelUnit::Px,
        mod_type: RofiDistanceModifier::Subtract,
        left: Some(left),
        right: Some(right),
    });
    assert_eq!(arena.unit_depth(left), 1);
    assert_eq!(arena.unit_depth(right), 1);
    assert_eq!(arena.unit_depth(sum), 2);
    assert_eq!(arena.nodes.len(), 3);
}

#[test]
fn cursor_default_is_the_arrow() {
    assert_eq!(RofiCursorType::default(), RofiCursorType::Arrow);
}

#[test]
fn matcher_is_plain_data() {
    let m = RofiIntMatcher { pattern: vec!['a'], case_sensitive: false, invert: true };
    assert!(m.invert);
    assert_eq!(m.pattern, vec!['a']);
}

#[test]
fn view_reloads_coalesce() {
    let mut view = rofi_plugin_abi::view::RofiViewState::new();
    assert!(!view.reload_pending);
    view.reload();
    view.reload();
    assert!(view.reload_pending);
    assert!(view.take_reload());
    assert!(!view.take_reload());
}

#[test]
fn property_trees_nest() {
    let fallback = Property { name: String::from("size"), value: PropertyValue::Integer(12) };
    let link = Property {
        name: String::from("size"),
        value: PropertyValue::Link(PropertyLink {
            name: String::from("element.size"),
            property_ref: None,
            def_value: Some(Box::new(fallback)),
        }),
    };
    let list = Property {
        name: String::from("children"),
        value: PropertyValue::List(vec![link]),
    };
    assert_eq!(list.property_type(), PropertyType::List);
    match &list.value {
        PropertyValue::List(items) => {
            assert_eq!(items.len(), 1);
            assert_eq!(items[0].property_type(), PropertyType::Link);
            match &items[0].value {
                PropertyValue::Link(l) => {
                    assert_eq!(l.name, "element.size");
                    let def = l.def_value.as_ref().unwrap();
                    assert_eq!(def.property_type(), PropertyType::Integer);
                }
                _ => panic!("wrong payload"),
            }
        }
        _ => panic!("wrong payload"),
    }
}
