use opc_da_client::catalog::{
    accept_prog_id, catalog_from_resolutions,
    accept_details, blank, catalog_order, catalog_prog_ids, enumerate_catalog, resolve_class, str_less,
    CatalogLookupKind, MemoryCatalog,
};
use opc_da_client::error::OpcErrorOf;
use opc_da_client::types::OpcServerInfo;

fn info(prog_id: &str, clsid: u128) -> OpcServerInfo {
    OpcServerInfo { prog_id: prog_id.to_string(), clsid, user_type: None, host: None }
}

fn fail() -> OpcErrorOf<String> {
    OpcErrorOf::Com { hresult: 0x8000_4005 }
}

fn kinds(cat: &MemoryCatalog) -> Vec<String> {
    cat.calls
        .iter()
        .map(|(k, c)| {
            let name = match k {
                CatalogLookupKind::Extended => "extended",
                CatalogLookupKind::Basic => "basic",
                CatalogLookupKind::Registry => "registry",
            };
            format!("{name} {c}")
        })
        .collect()
}

#[test]
fn string_order_matches_std() {
    let words = ["", "a", "A", "ab", "abc", "b", "Ä", "z", "aa", "a\u{10000}"];
    for x in words {
        for y in words {
            assert_eq!(str_less(x, y), x < y, "{x:?} < {y:?}");
        }
    }
}

#[test]
fn catalog_order_sorts_and_keeps_first_of_each_prog_id() {
    let entries = vec![info("Zeta.Server", 1), info("Alpha.Server", 2), info("Zeta.Server", 3), info("Mid.Server", 4), info("Alpha.Server", 5)];
    let ordered = catalog_order(entries);
    let got: Vec<(String, u128)> = ordered.iter().map(|e| (e.prog_id.clone(), e.clsid)).collect();
    assert_eq!(
        got,
        vec![("Alpha.Server".to_string(), 2), ("Mid.Server".to_string(), 4), ("Zeta.Server".to_string(), 1)]
    );
}

#[test]
fn catalog_prog_ids_sorted_without_duplicates() {
    let details = vec![info("b", 1), info("a", 2), info("b", 3), info("c", 4)];
    assert_eq!(catalog_prog_ids(details), vec!["a", "b", "c"]);
    assert!(catalog_prog_ids(Vec::new()).is_empty());
}

#[test]
fn accept_details_drops_blank_names() {
    assert_eq!(accept_details(Ok(("  ".to_string(), Some("T".to_string())))), None);
    assert_eq!(
        accept_details(Ok(("P.1".to_string(), Some(" ".to_string())))),
        Some(("P.1".to_string(), None))
    );
    assert_eq!(
        accept_details(Ok(("P.1".to_string(), Some("Type".to_string())))),
        Some(("P.1".to_string(), Some("Type".to_string())))
    );
    assert_eq!(accept_details(Err(fail())), None);
    assert!(blank(" \t"));
    assert!(!blank(" x "));
}

#[test]
fn resolve_class_falls_back_in_order() {
    let mut cat = MemoryCatalog::new();
    cat.extended = Some(Vec::new());
    cat.basic.push((7, ("Basic.Name".to_string(), None)));
    cat.registry.push((7, "Registry.Name".to_string()));
    assert_eq!(resolve_class(&mut cat, 7), Some(("Basic.Name".to_string(), None)));
    assert_eq!(kinds(&cat), vec!["extended 7", "basic 7"]);

    let mut cat = MemoryCatalog::new();
    cat.registry.push((8, "Registry.Name".to_string()));
    assert_eq!(resolve_class(&mut cat, 8), Some(("Registry.Name".to_string(), None)));
    assert_eq!(kinds(&cat), vec!["extended 8", "basic 8", "registry 8"]);

    let mut cat = MemoryCatalog::new();
    cat.extended = Some(vec![(9, ("Ext.Name".to_string(), Some("Ext Type".to_string())))]);
    assert_eq!(resolve_class(&mut cat, 9), Some(("Ext.Name".to_string(), Some("Ext Type".to_string()))));
    assert_eq!(kinds(&cat), vec!["extended 9"]);

    let mut cat = MemoryCatalog::new();
    cat.registry.push((10, "   ".to_string()));
    assert_eq!(resolve_class(&mut cat, 10), None);
}

#[test]
fn enumerate_catalog_resolves_sorts_and_records_host() {
    let mut cat = MemoryCatalog::new();
    cat.ids = Some(vec![0, 3, 1, 2, 4]);
    cat.basic.push((1, ("Vendor.B".to_string(), Some("B server".to_string()))));
    cat.basic.push((2, ("Vendor.A".to_string(), None)));
    cat.basic.push((3, ("Vendor.B".to_string(), None)));
    cat.registry.push((0, "Zero.Class".to_string()));

    let remote = enumerate_catalog(&mut cat, "plant-7").unwrap();
    let got: Vec<(String, u128, Option<String>, Option<String>)> =
        remote.iter().map(|e| (e.prog_id.clone(), e.clsid, e.user_type.clone(), e.host.clone())).collect();
    assert_eq!(
        got,
        vec![
            ("Vendor.A".to_string(), 2, None, Some("plant-7".to_string())),
            ("Vendor.B".to_string(), 3, None, Some("plant-7".to_string())),
        ]
    );
    assert!(!kinds(&cat).iter().any(|c| c.ends_with(" 0")), "the zero class ID is skipped");

    let local = enumerate_catalog(&mut cat, "localhost").unwrap();
    assert!(local.iter().all(|e| e.host.is_none()));
}

#[test]
fn enumerate_catalog_fails_when_classes_cannot_be_listed() {
    let mut cat = MemoryCatalog::new();
    assert!(enumerate_catalog(&mut cat, "").is_err());
}

#[test]
fn catalog_from_resolutions_sorts_keeps_the_first_and_skips_zero_ids() {
    let ids = vec![5u128, 0, 3, 9, 4];
    let resolved = vec![
        Some(("B.Server".to_string(), Some("Type B".to_string()))),
        Some(("Z.Zero".to_string(), None)),
        Some(("A.Server".to_string(), None)),
        None,
        Some(("B.Server".to_string(), None)),
    ];
    let out = catalog_from_resolutions(&ids, resolved, "plant-7");
    let keys: Vec<&str> = out.iter().map(|x| x.prog_id.as_str()).collect();
    assert_eq!(keys, vec!["A.Server", "B.Server"]);
    assert_eq!(out[1].clsid, 5);
    assert_eq!(out[1].user_type.as_deref(), Some("Type B"));
    assert_eq!(out[0].host.as_deref(), Some("plant-7"));
}

#[test]
fn a_registered_prog_id_is_kept_unless_blank() {
    assert_eq!(accept_prog_id(Ok("X.Y".to_string())), Some(("X.Y".to_string(), None)));
    assert_eq!(accept_prog_id(Ok("  ".to_string())), None);
    assert_eq!(accept_prog_id(Err(OpcErrorOf::Com { hresult: 1 })), None);
}
