use screen_lib::devices::{first_per_product, is_keychron_vendor, keychron_devices, product_key, HidInfo};

fn dev(vid: u16, pid: u16, name: &str, usage: u16) -> HidInfo {
    HidInfo { vid, pid, name: name.to_string(), usage, usage_page: 1 }
}

#[test]
fn vendor_ids_reported() {
    assert!(is_keychron_vendor(0x3434));
    assert!(is_keychron_vendor(0x362d));
    assert!(!is_keychron_vendor(0x046d));
}

#[test]
fn keychron_devices_keeps_order_and_drops_others() {
    let all = vec![dev(0x3434, 1, "K2", 6), dev(0x046d, 2, "Mouse", 2), dev(0x362d, 3, "Q1", 6)];
    let kept = keychron_devices(&all);
    assert_eq!(kept.len(), 2);
    assert_eq!(kept[0].name, "K2");
    assert_eq!(kept[1].name, "Q1");
    let again = keychron_devices(&kept);
    assert_eq!(again.len(), 2);
}

#[test]
fn product_key_packs_vendor_high_product_low() {
    assert_eq!(product_key(0x3434, 0x0120), 0x3434_0120);
    assert_eq!(product_key(0xffff, 0xffff), 0xffff_ffff);
    assert_eq!(product_key(0, 7), 7);
}

#[test]
fn first_per_product_keeps_first_interface() {
    let all = vec![
        dev(0x3434, 1, "first", 6),
        dev(0x3434, 2, "other", 6),
        dev(0x3434, 1, "second", 1),
        dev(0x362d, 1, "third", 6),
    ];
    let merged = first_per_product(&all);
    assert_eq!(merged.len(), 3);
    assert_eq!(merged[0].name, "first");
    assert_eq!(merged[0].usage, 6);
    assert_eq!(merged[1].name, "other");
    assert_eq!(merged[2].name, "third");
}

#[test]
fn first_per_product_of_empty_is_empty() {
    assert!(first_per_product(&Vec::new()).is_empty());
}
