use rusty_pdf::resource_category::ResourceCategory;
use rusty_pdf::resources::{ResourceDictionary, ResourceMap};

fn has_key(dict: &[(String, Vec<u8>)], key: &str) -> bool {
    dict.iter().any(|(k, _)| k == key)
}

#[test]
fn test_empty_resources() {
    let resources = ResourceDictionary::new();
    assert!(resources.is_empty());
    assert_eq!(resources.build().len(), 0);
}

#[test]
fn test_add_resources() {
    let mut resources = ResourceDictionary::new();
    resources.add_extgstate("GS0".to_string(), 5);
    resources.add_pattern("P0".to_string(), 8);

    assert!(!resources.is_empty());
    assert_eq!(resources.extgstate_count(), 1);
    assert_eq!(resources.pattern_count(), 1);

    let dict = resources.build();
    assert!(has_key(&dict, "ExtGState"));
    assert!(has_key(&dict, "Pattern"));
}

#[test]
fn test_merge_resources() {
    let mut res1 = ResourceDictionary::new();
    res1.add_extgstate("GS0".to_string(), 5);

    let mut res2 = ResourceDictionary::new();
    res2.add_pattern("P0".to_string(), 8);

    res1.merge(&res2);
    assert_eq!(res1.extgstate_count(), 1);
    assert_eq!(res1.pattern_count(), 1);
}

#[test]
fn build_gives_categories_in_order_with_text() {
    let mut r = ResourceDictionary::new();
    r.add_xobject("Im1".to_string(), 12);
    r.add_font("F1".to_string(), 3);
    r.add_font("F2".to_string(), 4);
    let dict = r.build();
    assert_eq!(dict.len(), 2);
    assert_eq!(dict[0].0, "Font");
    assert_eq!(dict[0].1, b"<</F1 3 0 R /F2 4 0 R >>".to_vec());
    assert_eq!(dict[1].0, "XObject");
    assert_eq!(dict[1].1, b"<</Im1 12 0 R >>".to_vec());
    assert_eq!(
        r.build_bytes(),
        b"<< /Font <</F1 3 0 R /F2 4 0 R >> /XObject <</Im1 12 0 R >> >>".to_vec()
    );
}

#[test]
fn empty_resources_build_nothing() {
    assert_eq!(ResourceDictionary::new().build_bytes(), Vec::<u8>::new());
}

#[test]
fn re_adding_a_name_replaces_its_number() {
    let mut r = ResourceDictionary::new();
    r.add_font("F1".to_string(), 3);
    r.add_font("F1".to_string(), 9);
    assert_eq!(r.font_count(), 1);
    assert_eq!(r.build()[0].1, b"<</F1 9 0 R >>".to_vec());
}

#[test]
fn merge_prefers_the_other_dictionary() {
    let mut a = ResourceDictionary::new();
    a.add_shading("Sh0".to_string(), 1);
    a.add_shading("Sh1".to_string(), 2);
    let mut b = ResourceDictionary::new();
    b.add_shading("Sh1".to_string(), 20);
    b.add_shading("Sh2".to_string(), 30);
    a.merge(&b);
    assert_eq!(a.build()[0].1, b"<</Sh0 1 0 R /Sh1 20 0 R /Sh2 30 0 R >>".to_vec());
}

#[test]
fn clear_empties_everything() {
    let mut r = ResourceDictionary::default();
    r.add_extgstate("GS0".to_string(), 5);
    r.clear();
    assert!(r.is_empty());
    assert_eq!(r.extgstate_count(), 0);
}

#[test]
fn resource_map_basics() {
    let mut m = ResourceMap::new();
    assert!(m.is_empty());
    m.insert("A".to_string(), 1);
    m.insert("B".to_string(), 2);
    m.insert("A".to_string(), 3);
    assert_eq!(m.len(), 2);
    assert_eq!(m.build_bytes(), b"<</A 3 0 R /B 2 0 R >>".to_vec());
    let mut other = ResourceMap::new();
    other.insert("C".to_string(), 4);
    m.extend(&other);
    assert_eq!(m.len(), 3);
    m.clear();
    assert_eq!(m.build_bytes(), b"<<>>".to_vec());
}

#[test]
fn category_names_and_prefixes() {
    assert_eq!(ResourceCategory::Font.as_str(), "Font");
    assert_eq!(ResourceCategory::category_prefix(ResourceCategory::Font), "F");
}

#[test]
fn category_keys_are_variant_names() {
    let all = [
        ResourceCategory::ColorSpace,
        ResourceCategory::ExtGState,
        ResourceCategory::Font,
        ResourceCategory::Pattern,
        ResourceCategory::Properties,
        ResourceCategory::Shading,
        ResourceCategory::XObject,
    ];
    for (i, c) in all.iter().enumerate() {
        assert_eq!(c.as_str(), format!("{:?}", c));
        for d in &all[i + 1..] {
            assert_ne!(c.as_str(), d.as_str());
        }
    }
}

#[test]
fn built_categories_follow_counts() {
    let mut r = ResourceDictionary::new();
    assert!(r.build().iter().all(|(k, _)| k != "Pattern"));
    r.add_pattern("P0".to_string(), 4);
    assert_eq!(r.pattern_count(), 1);
    assert!(r.build().iter().any(|(k, _)| k == "Pattern"));
    assert!(!r.build().iter().any(|(k, _)| k == "Font"));
}
