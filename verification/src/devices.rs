//! Which attached HID devices the application reports, and how it merges the
//! interfaces of one physical device.
use vstd::prelude::*;

verus! {

/// One HID interface of an attached device.
#[derive(Debug)]
pub struct HidInfo {
    pub vid: u16,
    pub pid: u16,
    pub name: String,
    pub usage: u16,
    pub usage_page: u16,
}

impl HidInfo {
    /// A field-by-field copy.
    pub fn copy(&self) -> (r: HidInfo)
        ensures
            r == *self,
    {
        HidInfo {
            vid: self.vid,
            pid: self.pid,
            name: self.name.clone(),
            usage: self.usage,
            usage_page: self.usage_page,
        }
    }
}

/// The first of the two vendor ids whose devices the application reports.
pub const KEYCHRON_VID: u16 = 0x3434;

/// The second of the two vendor ids whose devices the application reports.
pub const KEYCHRON_VID_ALT: u16 = 0x362d;

/// Whether a vendor id is one whose devices the application reports.
pub open spec fn spec_is_keychron_vendor(vid: u16) -> bool {
    vid == KEYCHRON_VID || vid == KEYCHRON_VID_ALT
}

/// Whether a vendor id is one whose devices the application reports.
pub fn is_keychron_vendor(vid: u16) -> (r: bool)
    ensures
        r == spec_is_keychron_vendor(vid),
{
    vid == KEYCHRON_VID || vid == KEYCHRON_VID_ALT
}

/// The devices of `s` that the application reports, in their order.
pub open spec fn spec_keychron_devices(s: Seq<HidInfo>) -> Seq<HidInfo> {
    s.filter(|d: HidInfo| spec_is_keychron_vendor(d.vid))
}

/// Keeps, in order, the devices whose vendor id is one the application reports.
pub fn keychron_devices(devices: &Vec<HidInfo>) -> (r: Vec<HidInfo>)
    ensures
        r@ == spec_keychron_devices(devices@),
{
    let mut r: Vec<HidInfo> = Vec::new();
    let n = devices.len();
    for i in 0..n
        invariant
            n == devices@.len(),
            r@ == spec_keychron_devices(devices@.take(i as int)),
    {
        proof {
            reveal_with_fuel(Seq::<_>::filter, 1);
            assert(devices@.take(i + 1).drop_last() =~= devices@.take(i as int));
        }
        if is_keychron_vendor(devices[i].vid) {
            r.push(devices[i].copy());
        }
    }
    assert(devices@.take(n as int) =~= devices@);
    r
}

/// The number that identifies a product: the vendor id in the high 16 bits,
/// the product id in the low 16 bits.
pub open spec fn spec_product_key(vid: u16, pid: u16) -> int {
    vid * 65536 + pid
}

/// The product key of a device.
pub open spec fn key_of(d: HidInfo) -> int {
    spec_product_key(d.vid, d.pid)
}

/// The product key: `vid << 16 | pid`.
pub fn product_key(vid: u16, pid: u16) -> (r: u32)
    ensures
        r == spec_product_key(vid, pid),
{
    let r = ((vid as u32) << 16u32) | (pid as u32);
    assert(((vid as u32) << 16u32) | (pid as u32) == (vid as u32) * 65536 + (pid as u32))
        by (bit_vector);
    r
}

/// Whether some device of `s` has the product key `k`.
pub open spec fn has_key(s: Seq<HidInfo>, k: int) -> bool {
    exists|j: int| 0 <= j < s.len() && key_of(s[j]) == k
}

/// The first device of `s` with each product key, in the order of first
/// appearance.
pub open spec fn spec_first_per_product(s: Seq<HidInfo>) -> Seq<HidInfo>
    decreases s.len(),
{
    if s.len() == 0 {
        Seq::empty()
    } else {
        let p = spec_first_per_product(s.drop_last());
        if has_key(p, key_of(s.last())) {
            p
        } else {
            p.push(s.last())
        }
    }
}

/// Merges the interfaces of each physical device: keeps the first device seen
/// for each product key.
pub fn first_per_product(devices: &Vec<HidInfo>) -> (r: Vec<HidInfo>)
    ensures
        r@ == spec_first_per_product(devices@),
{
    let mut r: Vec<HidInfo> = Vec::new();
    let n = devices.len();
    for i in 0..n
        invariant
            n == devices@.len(),
            r@ == spec_first_per_product(devices@.take(i as int)),
    {
        let d = &devices[i];
        let k = product_key(d.vid, d.pid);
        let mut found = false;
        let m = r.len();
        for j in 0..m
            invariant
                m == r@.len(),
                k == key_of(*d),
                found <==> exists|t: int| 0 <= t < j && key_of(r@[t]) == k,
        {
            let kj = product_key(r[j].vid, r[j].pid);
            if kj == k {
                found = true;
            }
        }
        proof {
            assert(devices@.take(i + 1).drop_last() =~= devices@.take(i as int));
            assert(devices@.take(i + 1).last() == *d);
        }
        if !found {
            r.push(d.copy());
        }
    }
    assert(devices@.take(n as int) =~= devices@);
    r
}

/// Every device of the first-per-product list comes from the input.
pub proof fn lemma_first_per_product_from_input(s: Seq<HidInfo>, i: int)
    requires
        0 <= i < spec_first_per_product(s).len(),
    ensures
        s.contains(spec_first_per_product(s)[i]),
    decreases s.len(),
{
    let p = spec_first_per_product(s.drop_last());
    if i < p.len() {
        lemma_first_per_product_from_input(s.drop_last(), i);
        let j = choose|j: int| 0 <= j < s.drop_last().len() && s.drop_last()[j] == p[i];
        assert(s[j] == p[i]);
    } else {
        assert(s[s.len() - 1] == s.last());
    }
}

/// A product key occurs in the first-per-product list exactly when it occurs
/// in the input.
pub proof fn lemma_first_per_product_keys(s: Seq<HidInfo>, k: int)
    ensures
        has_key(spec_first_per_product(s), k) <==> has_key(s, k),
    decreases s.len(),
{
    if s.len() > 0 {
        let q = s.drop_last();
        let p = spec_first_per_product(q);
        lemma_first_per_product_keys(q, k);
        if has_key(q, k) {
            let j = choose|j: int| 0 <= j < q.len() && key_of(q[j]) == k;
            assert(s[j] == q[j]);
        }
        if has_key(s, k) && !has_key(q, k) {
            let j = choose|j: int| 0 <= j < s.len() && key_of(s[j]) == k;
            if j < q.len() {
                assert(q[j] == s[j]);
            }
            assert(key_of(s.last()) == k);
            if !has_key(p, key_of(s.last())) {
                assert(spec_first_per_product(s).last() == s.last());
            }
        }
        if has_key(spec_first_per_product(s), k) && !has_key(p, k) {
            let r = spec_first_per_product(s);
            let j = choose|j: int| 0 <= j < r.len() && key_of(r[j]) == k;
            if j < p.len() {
                assert(r[j] == p[j]);
            }
            assert(s[s.len() - 1] == s.last());
        }
        if has_key(p, k) {
            let r = spec_first_per_product(s);
            let j = choose|j: int| 0 <= j < p.len() && key_of(p[j]) == k;
            assert(r[j] == p[j]);
        }
    }
}

/// No two devices of the first-per-product list share a product key.
pub proof fn law_first_per_product_unique(s: Seq<HidInfo>, i: int, j: int)
    requires
        0 <= i < j < spec_first_per_product(s).len(),
    ensures
        key_of(spec_first_per_product(s)[i]) != key_of(spec_first_per_product(s)[j]),
    decreases s.len(),
{
    let p = spec_first_per_product(s.drop_last());
    let r = spec_first_per_product(s);
    if j < p.len() {
        assert(r[i] == p[i] && r[j] == p[j]);
        law_first_per_product_unique(s.drop_last(), i, j);
    } else {
        assert(r[i] == p[i]);
        assert(!has_key(p, key_of(s.last())));
    }
}

/// The first-per-product list holds exactly the product keys of the input,
/// each once, and each device in it is one of the input's.
pub proof fn law_first_per_product(s: Seq<HidInfo>)
    ensures
        forall|k: int| has_key(spec_first_per_product(s), k) <==> has_key(s, k),
        forall|i: int, j: int|
            0 <= i < j < spec_first_per_product(s).len() ==> key_of(
                #[trigger] spec_first_per_product(s)[i],
            ) != key_of(#[trigger] spec_first_per_product(s)[j]),
        forall|i: int|
            0 <= i < spec_first_per_product(s).len() ==> s.contains(
                #[trigger] spec_first_per_product(s)[i],
            ),
{
    assert forall|k: int| has_key(spec_first_per_product(s), k) <==> has_key(s, k) by {
        lemma_first_per_product_keys(s, k);
    }
    assert forall|i: int, j: int| 0 <= i < j < spec_first_per_product(s).len() implies key_of(
        #[trigger] spec_first_per_product(s)[i],
    ) != key_of(#[trigger] spec_first_per_product(s)[j]) by {
        law_first_per_product_unique(s, i, j);
    }
    assert forall|i: int| 0 <= i < spec_first_per_product(s).len() implies s.contains(
        #[trigger] spec_first_per_product(s)[i],
    ) by {
        lemma_first_per_product_from_input(s, i);
    }
}

/// Two devices share a product key exactly when they share both the vendor
/// and the product id.
pub proof fn law_product_key_injective(v1: u16, p1: u16, v2: u16, p2: u16)
    ensures
        spec_product_key(v1, p1) == spec_product_key(v2, p2) <==> (v1 == v2 && p1 == p2),
{
}

/// The reported devices all carry one of the two vendor ids, every input device
/// that carries one is reported, and filtering again changes nothing.
pub proof fn law_keychron_devices(s: Seq<HidInfo>)
    ensures
        forall|i: int|
            0 <= i < spec_keychron_devices(s).len() ==> spec_is_keychron_vendor(
                (#[trigger] spec_keychron_devices(s)[i]).vid,
            ),
        forall|i: int|
            0 <= i < s.len() && spec_is_keychron_vendor(s[i].vid) ==> spec_keychron_devices(
                s,
            ).contains(#[trigger] s[i]),
        spec_keychron_devices(spec_keychron_devices(s)) == spec_keychron_devices(s),
    decreases s.len(),
{
    broadcast use vstd::seq_lib::group_filter_ensures;

    reveal_with_fuel(Seq::<_>::filter, 1);
    if s.len() > 0 {
        law_keychron_devices(s.drop_last());
        let f = spec_keychron_devices(s.drop_last());
        if spec_is_keychron_vendor(s.last().vid) {
            let g = f.push(s.last());
            assert(g.drop_last() =~= f);
        }
    }
}

} // verus!
