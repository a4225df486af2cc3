use sk_trace::decimal::decimal_text;
use sk_trace::index::TraceIndex;
use sk_trace::k8s::{DynamicObject, ObjectMeta, TypeMeta, GVK};
use sk_trace::owner_map::OwnerMap;

fn gvk(kind: &str) -> GVK {
    GVK { group: "apps".into(), version: "v1".into(), kind: kind.into() }
}

fn object(name: Option<&str>, generate_name: Option<&str>, namespace: Option<&str>) -> DynamicObject {
    DynamicObject {
        types: None,
        metadata: ObjectMeta {
            name: name.map(String::from),
            generate_name: generate_name.map(String::from),
            namespace: namespace.map(String::from),
            rest: "{}".into(),
        },
        data: "{}".into(),
    }
}

#[test]
fn numbers_have_no_leading_zeros() {
    assert_eq!(decimal_text(0), "0");
    assert_eq!(decimal_text(9), "9");
    assert_eq!(decimal_text(10), "10");
    assert_eq!(decimal_text(1203), "1203");
    assert_eq!(decimal_text(45678), "45678");
    assert_eq!(decimal_text(65535), "65535");
}

#[test]
fn namespaced_names() {
    assert_eq!(object(Some("a"), Some("a-"), Some("ns")).namespaced_name(), "ns/a");
    assert_eq!(object(None, Some("a-"), Some("ns")).namespaced_name(), "ns/a-");
    assert_eq!(object(Some("node"), None, None).namespaced_name(), "node");
    assert_eq!(object(None, None, None).namespaced_name(), "");
}

#[test]
fn types_are_equal_by_every_part() {
    assert!(gvk("Deployment") == gvk("Deployment"));
    assert!(gvk("Deployment") != gvk("StatefulSet"));
    let other = GVK { group: "apps".into(), version: "v2".into(), kind: "Deployment".into() };
    assert!(gvk("Deployment") != other);
    let meta = TypeMeta { api_version: "apps/v1".into(), kind: "Deployment".into() };
    assert!(meta == meta.clone());
    assert!(meta != TypeMeta { api_version: "apps/v1".into(), kind: "ReplicaSet".into() });
}

#[test]
fn later_value_replaces_the_earlier() {
    let mut map: OwnerMap<u32> = OwnerMap::new();
    assert!(!map.contains(&gvk("A"), "ns/a"));
    map.insert(gvk("A"), "ns/a".into(), 1);
    map.insert(gvk("B"), "ns/a".into(), 2);
    map.insert(gvk("A"), "ns/b".into(), 3);
    map.insert(gvk("A"), "ns/a".into(), 4);
    assert_eq!(map.get(&gvk("A"), "ns/a"), Some(&4));
    assert_eq!(map.get(&gvk("B"), "ns/a"), Some(&2));
    assert_eq!(map.get(&gvk("A"), "ns/b"), Some(&3));
    assert_eq!(map.get(&gvk("B"), "ns/b"), None);
    assert_eq!(map.keys().len(), 3);
    let copy = map.clone();
    map.insert(gvk("A"), "ns/a".into(), 5);
    assert_eq!(copy.get(&gvk("A"), "ns/a"), Some(&4));
}

#[test]
fn index_lists_its_objects() {
    let mut index = TraceIndex::default();
    index.insert(gvk("A"), "ns/a".into(), 1);
    index.insert(gvk("A"), "ns/a".into(), 2);
    index.insert(gvk("B"), "ns/b".into(), 3);
    assert!(index.contains(&gvk("B"), "ns/b"));
    assert!(!index.contains(&gvk("B"), "ns/a"));
    assert_eq!(index.get(&gvk("A"), "ns/a"), Some(2));
    assert_eq!(index.get(&gvk("A"), "ns/b"), None);
    let names: Vec<String> = index.keys().into_iter().map(|(_, ns_name)| ns_name).collect();
    assert_eq!(names, vec!["ns/a", "ns/b"]);
}
