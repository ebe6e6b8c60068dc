//! Adapters and devices as the UI sees them: plain records rebuilt every
//! refresh cycle, partitioned into paired and newly discovered devices and
//! sorted for display. The transport that reads the underlying properties
//! stays outside; this module owns the partitioning and ordering rules.

use vstd::prelude::*;
use vstd::multiset::Multiset;
use vstd::seq_lib::{to_multiset_build, to_multiset_insert};
use vstd::string::StrSliceExecFns;

use crate::address::Address;
use crate::strings::str_eq;

verus! {

broadcast use {
    vstd::multiset::group_multiset_axioms,
    vstd::multiset::lemma_multiset_empty_len,
    vstd::seq_lib::group_to_multiset_ensures,
};

/// One Bluetooth device, with the derived fields the UI attaches.
#[derive(Debug)]
pub struct Device {
    pub addr: Address,
    pub icon: &'static str,
    pub alias: String,
    pub is_paired: bool,
    pub is_favorite: bool,
    pub is_trusted: bool,
    pub is_connected: bool,
    pub battery_percentage: Option<u8>,
}

/// One adapter with its current properties and device lists.
#[derive(Debug)]
pub struct Controller {
    pub name: String,
    pub alias: String,
    pub is_powered: bool,
    pub is_pairable: bool,
    pub is_discoverable: bool,
    pub is_scanning: bool,
    pub paired_devices: Vec<Device>,
    pub new_devices: Vec<Device>,
}

/// The glyph shown for a device class name.
pub open spec fn icon_for(name: Seq<char>) -> Seq<char> {
    if name == "audio-card"@ {
        "\u{f04c3} "@
    } else if name == "audio-input-microphone"@ {
        "\u{f036c} "@
    } else if name == "audio-headphones"@ || name == "audio-headset"@ {
        "\u{f02cb} "@
    } else if name == "battery"@ {
        "\u{f0080} "@
    } else if name == "camera-photo"@ {
        "\u{f0edb} "@
    } else if name == "computer"@ {
        "\u{f0379} "@
    } else if name == "input-keyboard"@ {
        "\u{f030c} "@
    } else if name == "input-mouse"@ {
        "\u{f037d} "@
    } else if name == "input-gaming"@ {
        "\u{f02b4} "@
    } else if name == "phone"@ {
        "\u{f03f2} "@
    } else {
        "\u{f0fb0} "@
    }
}

impl Device {
    /// Picks the display glyph for a device class name.
    pub fn get_icon(name: &str) -> (r: &'static str)
        ensures
            r@ == icon_for(name@),
    {
        if str_eq(name, "audio-card") {
            "\u{f04c3} "
        } else if str_eq(name, "audio-input-microphone") {
            "\u{f036c} "
        } else if str_eq(name, "audio-headphones") || str_eq(name, "audio-headset") {
            "\u{f02cb} "
        } else if str_eq(name, "battery") {
            "\u{f0080} "
        } else if str_eq(name, "camera-photo") {
            "\u{f0edb} "
        } else if str_eq(name, "computer") {
            "\u{f0379} "
        } else if str_eq(name, "input-keyboard") {
            "\u{f030c} "
        } else if str_eq(name, "input-mouse") {
            "\u{f037d} "
        } else if str_eq(name, "input-gaming") {
            "\u{f02b4} "
        } else if str_eq(name, "phone") {
            "\u{f03f2} "
        } else {
            "\u{f0fb0} "
        }
    }
}

pub open spec fn is_hex_digit(c: char) -> bool {
    ('0' <= c && c <= '9') || ('a' <= c && c <= 'f') || ('A' <= c && c <= 'F')
}

/// The shape of an unnamed device's alias: six hex pairs joined by dashes.
pub open spec fn is_mac_addr_spec(s: Seq<char>) -> bool {
    s.len() == 17 && forall|i: int|
        0 <= i < 17 ==> (if i % 3 == 2 {
            #[trigger] s[i] == '-'
        } else {
            is_hex_digit(s[i])
        })
}

/// Whether an alias is just the device's address, dashed: such devices have
/// no real name and are listed last.
pub fn is_mac_addr(s: &str) -> (r: bool)
    ensures
        r == is_mac_addr_spec(s@),
{
    let n = s.unicode_len();
    if n != 17 {
        return false;
    }
    let mut i: usize = 0;
    while i < 17
        invariant
            s@.len() == 17,
            i <= 17,
            forall|j: int|
                0 <= j < i ==> (if j % 3 == 2 {
                    #[trigger] s@[j] == '-'
                } else {
                    is_hex_digit(s@[j])
                }),
        decreases 17 - i,
    {
        let c = s.get_char(i);
        let ok = if i % 3 == 2 {
            c == '-'
        } else {
            ('0' <= c && c <= '9') || ('a' <= c && c <= 'f') || ('A' <= c && c <= 'F')
        };
        if !ok {
            return false;
        }
        i += 1;
    }
    true
}

/// Character-by-character lexicographic order; ties broken by length.
/// UTF-8 makes this the same order std gives strings.
pub open spec fn seq_char_le(a: Seq<char>, b: Seq<char>) -> bool
    decreases a.len(),
{
    if a.len() == 0 {
        true
    } else if b.len() == 0 {
        false
    } else if a.first() < b.first() {
        true
    } else if b.first() < a.first() {
        false
    } else {
        seq_char_le(a.drop_first(), b.drop_first())
    }
}

pub proof fn lemma_seq_char_le_total(a: Seq<char>, b: Seq<char>)
    ensures
        seq_char_le(a, b) || seq_char_le(b, a),
    decreases a.len(),
{
    if a.len() > 0 && b.len() > 0 && a.first() == b.first() {
        lemma_seq_char_le_total(a.drop_first(), b.drop_first());
    }
}

pub proof fn lemma_seq_char_le_trans(a: Seq<char>, b: Seq<char>, c: Seq<char>)
    requires
        seq_char_le(a, b),
        seq_char_le(b, c),
    ensures
        seq_char_le(a, c),
    decreases a.len(),
{
    if a.len() > 0 {
        if a.first() == b.first() && b.first() == c.first() {
            lemma_seq_char_le_trans(a.drop_first(), b.drop_first(), c.drop_first());
        }
    }
}

/// If two strings agree on their first `i` characters, their order is the
/// order of what remains.
proof fn lemma_seq_char_le_common_prefix(a: Seq<char>, b: Seq<char>, i: int)
    requires
        0 <= i <= a.len(),
        i <= b.len(),
        forall|j: int| 0 <= j < i ==> a[j] == b[j],
    ensures
        seq_char_le(a, b) == seq_char_le(a.skip(i), b.skip(i)),
    decreases i,
{
    if i > 0 {
        assert(a.len() > 0 && b.len() > 0 && a.first() == b.first());
        assert(seq_char_le(a, b) == seq_char_le(a.drop_first(), b.drop_first()));
        assert(forall|j: int|
            0 <= j < i - 1 ==> a.drop_first()[j] == b.drop_first()[j]);
        lemma_seq_char_le_common_prefix(a.drop_first(), b.drop_first(), i - 1);
        assert(a.drop_first().skip(i - 1) =~= a.skip(i));
        assert(b.drop_first().skip(i - 1) =~= b.skip(i));
    } else {
        assert(a.skip(0) =~= a);
        assert(b.skip(0) =~= b);
    }
}

/// Compares two strings in the lexicographic order above.
pub fn str_le(a: &str, b: &str) -> (r: bool)
    ensures
        r == seq_char_le(a@, b@),
{
    let an = a.unicode_len();
    let bn = b.unicode_len();
    let n = if an < bn {
        an
    } else {
        bn
    };
    let mut i: usize = 0;
    while i < n
        invariant
            an == a@.len(),
            bn == b@.len(),
            n == if an < bn {
                an
            } else {
                bn
            },
            i <= n,
            forall|j: int| 0 <= j < i ==> a@[j] == b@[j],
        decreases n - i,
    {
        let ca = a.get_char(i);
        let cb = b.get_char(i);
        if ca != cb {
            proof {
                lemma_seq_char_le_common_prefix(a@, b@, i as int);
                assert(a@.skip(i as int).first() == a@[i as int]);
                assert(b@.skip(i as int).first() == b@[i as int]);
            }
            return ca < cb;
        }
        i += 1;
    }
    proof {
        lemma_seq_char_le_common_prefix(a@, b@, n as int);
        if an <= bn {
            assert(a@.skip(n as int).len() == 0);
        } else {
            assert(b@.skip(n as int).len() == 0);
            assert(a@.skip(n as int).len() > 0);
        }
    }
    an <= bn
}

/// The three display orders: paired devices come favorites-first then by
/// address, named discoveries alphabetically, unnamed ones by address.
#[derive(Debug, Clone, Copy, PartialEq, Eq, Structural)]
pub enum DeviceOrder {
    PairedKey,
    Alias,
    Addr,
}

pub open spec fn device_le(order: DeviceOrder, a: Device, b: Device) -> bool {
    match order {
        DeviceOrder::PairedKey => if a.is_favorite != b.is_favorite {
            a.is_favorite
        } else {
            a.addr.bits <= b.addr.bits
        },
        DeviceOrder::Alias => seq_char_le(a.alias@, b.alias@),
        DeviceOrder::Addr => a.addr.bits <= b.addr.bits,
    }
}

pub proof fn lemma_device_le_total(order: DeviceOrder, a: Device, b: Device)
    ensures
        device_le(order, a, b) || device_le(order, b, a),
{
    if order == DeviceOrder::Alias {
        lemma_seq_char_le_total(a.alias@, b.alias@);
    }
}

pub proof fn lemma_device_le_trans(order: DeviceOrder, a: Device, b: Device, c: Device)
    requires
        device_le(order, a, b),
        device_le(order, b, c),
    ensures
        device_le(order, a, c),
{
    if order == DeviceOrder::Alias {
        lemma_seq_char_le_trans(a.alias@, b.alias@, c.alias@);
    }
}

pub open spec fn sorted_by_order(s: Seq<Device>, order: DeviceOrder) -> bool {
    forall|i: int, j: int| 0 <= i < j < s.len() ==> device_le(order, #[trigger] s[i], #[trigger] s[j])
}

fn device_le_exec(order: DeviceOrder, a: &Device, b: &Device) -> (r: bool)
    ensures
        r == device_le(order, *a, *b),
{
    match order {
        DeviceOrder::PairedKey => {
            if a.is_favorite != b.is_favorite {
                a.is_favorite
            } else {
                a.addr.bits <= b.addr.bits
            }
        },
        DeviceOrder::Alias => str_le(a.alias.as_str(), b.alias.as_str()),
        DeviceOrder::Addr => a.addr.bits <= b.addr.bits,
    }
}

/// Finds the first position whose device does not precede `d`.
fn find_insert_pos(v: &Vec<Device>, order: DeviceOrder, d: &Device) -> (p: usize)
    ensures
        p <= v@.len(),
        forall|i: int| 0 <= i < p ==> device_le(order, #[trigger] v@[i], *d),
        p < v@.len() ==> !device_le(order, v@[p as int], *d),
{
    let mut p: usize = 0;
    let n = v.len();
    while p < n
        invariant
            n == v@.len(),
            p <= n,
            forall|i: int| 0 <= i < p ==> device_le(order, #[trigger] v@[i], *d),
        decreases n - p,
    {
        if !device_le_exec(order, &v[p], d) {
            return p;
        }
        p += 1;
    }
    p
}

/// Puts one device where it keeps the list sorted.
fn insert_device_sorted(v: &mut Vec<Device>, order: DeviceOrder, d: Device)
    requires
        sorted_by_order(old(v)@, order),
    ensures
        sorted_by_order(final(v)@, order),
        final(v)@.to_multiset() == old(v)@.to_multiset().insert(d),
{
    let p = find_insert_pos(v, order, &d);
    let ghost pre = v@;
    let ghost pos = p as int;
    proof {
        if pos < pre.len() {
            lemma_device_le_total(order, pre[pos], d);
        }
    }
    v.insert(p, d);
    proof {
        to_multiset_insert(pre, pos, d);
        assert forall|i: int, j: int| 0 <= i < j < v@.len() implies device_le(
            order,
            v@[i],
            v@[j],
        ) by {
            if i == pos && j > pos {
                assert(v@[i] == d);
                assert(v@[j] == pre[j - 1]);
                assert(device_le(order, d, pre[pos]));
                if j - 1 > pos {
                    assert(device_le(order, pre[pos], pre[j - 1]));
                    lemma_device_le_trans(order, d, pre[pos], pre[j - 1]);
                }
            } else if i < pos && j == pos {
                assert(v@[i] == pre[i] && v@[j] == d);
            } else if i < pos && j > pos {
                assert(v@[i] == pre[i] && v@[j] == pre[j - 1]);
                if i == j - 1 {
                    assert(device_le(order, pre[i], d));
                    assert(device_le(order, d, pre[pos]));
                } else {
                    assert(device_le(order, pre[i], pre[j - 1]));
                }
            } else if i > pos {
                assert(v@[i] == pre[i - 1] && v@[j] == pre[j - 1]);
            } else {
                assert(v@[i] == pre[i] && v@[j] == pre[j]);
            }
        }
    }
}

/// Sorts devices for display in the given order. The result holds exactly
/// the devices that went in.
pub fn sort_devices(devices: Vec<Device>, order: DeviceOrder) -> (r: Vec<Device>)
    ensures
        r@.to_multiset() == devices@.to_multiset(),
        sorted_by_order(r@, order),
{
    let mut rest = devices;
    let mut result: Vec<Device> = Vec::new();
    proof {
        assert(result@.to_multiset().add(rest@.to_multiset()) =~= devices@.to_multiset());
    }
    while rest.len() > 0
        invariant
            sorted_by_order(result@, order),
            result@.to_multiset().add(rest@.to_multiset()) == devices@.to_multiset(),
        decreases rest@.len(),
    {
        let ghost pre = rest@;
        let ghost result_pre = result@;
        let d = rest.pop().unwrap();
        proof {
            assert(pre =~= rest@.push(d));
            to_multiset_build(rest@, d);
        }
        insert_device_sorted(&mut result, order, d);
        proof {
            broadcast use vstd::multiset::group_multiset_axioms;

            assert(result@.to_multiset().add(rest@.to_multiset())
                =~= result_pre.to_multiset().add(pre.to_multiset()));
        }
    }
    proof {
        assert(rest@.to_multiset().len() == 0);
        assert(rest@.to_multiset() =~= Multiset::empty());
        assert(result@.to_multiset() =~= result@.to_multiset().add(rest@.to_multiset()));
    }
    result
}

/// A device as it enters the lists: its favorite flag set from the saved
/// favorites.
pub open spec fn marked(d: Device, favorites: Seq<Address>) -> Device {
    Device { is_favorite: favorites.contains(d.addr), ..d }
}

/// All devices marked, in order.
pub open spec fn marked_all(ds: Seq<Device>, favorites: Seq<Address>) -> Seq<Device> {
    ds.map_values(|d: Device| marked(d, favorites))
}

/// A paired device, after marking.
pub open spec fn paired_pred(d: Device) -> bool {
    d.is_paired
}

/// A discovered device that carries a real name.
pub open spec fn named_pred(d: Device) -> bool {
    !d.is_paired && !is_mac_addr_spec(d.alias@)
}

/// A discovered device whose alias is just its address.
pub open spec fn unnamed_pred(d: Device) -> bool {
    !d.is_paired && is_mac_addr_spec(d.alias@)
}

fn contains_addr(favorites: &Vec<Address>, addr: Address) -> (r: bool)
    ensures
        r == favorites@.contains(addr),
{
    let mut i: usize = 0;
    while i < favorites.len()
        invariant
            i <= favorites@.len(),
            forall|j: int| 0 <= j < i ==> favorites@[j] != addr,
        decreases favorites@.len() - i,
    {
        if favorites[i] == addr {
            return true;
        }
        i += 1;
    }
    false
}

/// Splits a refresh cycle's devices into the two display lists: paired
/// devices (favorites first, then by address) and new devices (named ones
/// alphabetically, then the ones whose alias is only an address, by
/// address). Every device lands in exactly one list, with its favorite flag
/// set from the saved favorites.
pub fn organize_devices(devices: Vec<Device>, favorites: &Vec<Address>) -> (r: (
    Vec<Device>,
    Vec<Device>,
))
    ensures
        r.0@.to_multiset() == marked_all(devices@, favorites@).filter(
            |d: Device| paired_pred(d),
        ).to_multiset(),
        sorted_by_order(r.0@, DeviceOrder::PairedKey),
        exists|split: int|
            {
                &&& 0 <= split <= r.1@.len()
                &&& (#[trigger] r.1@.subrange(0, split)).to_multiset() == marked_all(
                    devices@,
                    favorites@,
                ).filter(|d: Device| named_pred(d)).to_multiset()
                &&& r.1@.subrange(split, r.1@.len() as int).to_multiset() == marked_all(
                    devices@,
                    favorites@,
                ).filter(|d: Device| unnamed_pred(d)).to_multiset()
                &&& sorted_by_order(r.1@.subrange(0, split), DeviceOrder::Alias)
                &&& sorted_by_order(
                    r.1@.subrange(split, r.1@.len() as int),
                    DeviceOrder::Addr,
                )
            },
{
    let ghost orig = devices@;
    let ghost favs = favorites@;
    let mut rest = devices;
    let mut paired: Vec<Device> = Vec::new();
    let mut named: Vec<Device> = Vec::new();
    let mut unnamed: Vec<Device> = Vec::new();
    let ghost mut k: int = 0;
    let ghost n = orig.len();
    while rest.len() > 0
        invariant
            n == orig.len(),
            favs == favorites@,
            rest@ =~= orig.subrange(k, n as int),
            k + rest@.len() == n,
            0 <= k <= n,
            paired@ == marked_all(orig.subrange(0, k), favs).filter(
                |d: Device| paired_pred(d),
            ),
            named@ == marked_all(orig.subrange(0, k), favs).filter(
                |d: Device| named_pred(d),
            ),
            unnamed@ == marked_all(orig.subrange(0, k), favs).filter(
                |d: Device| unnamed_pred(d),
            ),
        decreases rest@.len(),
    {
        let ghost pre_rest = rest@;
        let mut d = rest.remove(0);
        let is_favorite = contains_addr(favorites, d.addr);
        d.is_favorite = is_favorite;
        proof {
            assert(pre_rest[0] == orig.subrange(k, n as int)[0]);
            assert(orig.subrange(k, n as int)[0] == orig[k]);
            assert(d.addr == orig[k].addr);
            assert(d.alias == orig[k].alias);
            assert(d.is_favorite == favs.contains(orig[k].addr));
            assert(d == marked(orig[k], favs));
        }
        let mac = is_mac_addr(d.alias.as_str());
        let ghost prefix = marked_all(orig.subrange(0, k), favs);
        let ghost next = marked_all(orig.subrange(0, k + 1), favs);
        proof {
            assert(next.drop_last() =~= prefix);
            assert(next.last() == marked(orig[k], favs));
            reveal_with_fuel(Seq::filter, 2);
            assert(next.filter(|x: Device| paired_pred(x)) == prefix.filter(
                |x: Device| paired_pred(x),
            ) + (if paired_pred(next.last()) {
                seq![next.last()]
            } else {
                Seq::<Device>::empty()
            }));
            assert(next.filter(|x: Device| named_pred(x)) == prefix.filter(
                |x: Device| named_pred(x),
            ) + (if named_pred(next.last()) {
                seq![next.last()]
            } else {
                Seq::<Device>::empty()
            }));
            assert(next.filter(|x: Device| unnamed_pred(x)) == prefix.filter(
                |x: Device| unnamed_pred(x),
            ) + (if unnamed_pred(next.last()) {
                seq![next.last()]
            } else {
                Seq::<Device>::empty()
            }));
        }
        if d.is_paired {
            paired.push(d);
            proof {
                assert(paired@ =~= prefix.filter(|x: Device| paired_pred(x)) + seq![
                    marked(orig[k], favs),
                ]);
                assert(named@ =~= next.filter(|x: Device| named_pred(x)));
                assert(unnamed@ =~= next.filter(|x: Device| unnamed_pred(x)));
            }
        } else if !mac {
            named.push(d);
            proof {
                assert(named@ =~= prefix.filter(|x: Device| named_pred(x)) + seq![
                    marked(orig[k], favs),
                ]);
                assert(paired@ =~= next.filter(|x: Device| paired_pred(x)));
                assert(unnamed@ =~= next.filter(|x: Device| unnamed_pred(x)));
            }
        } else {
            unnamed.push(d);
            proof {
                assert(unnamed@ =~= prefix.filter(|x: Device| unnamed_pred(x)) + seq![
                    marked(orig[k], favs),
                ]);
                assert(paired@ =~= next.filter(|x: Device| paired_pred(x)));
                assert(named@ =~= next.filter(|x: Device| named_pred(x)));
            }
        }
        proof {
            k = k + 1;
            assert(rest@ =~= orig.subrange(k, n as int));
        }
    }
    proof {
        assert(orig.subrange(0, n as int) =~= orig);
    }
    let paired_sorted = sort_devices(paired, DeviceOrder::PairedKey);
    let named_sorted = sort_devices(named, DeviceOrder::Alias);
    let unnamed_sorted = sort_devices(unnamed, DeviceOrder::Addr);
    let ghost split = named_sorted@.len() as int;
    let mut new_devices = named_sorted;
    let mut tail = unnamed_sorted;
    let ghost named_view = new_devices@;
    let ghost unnamed_view = tail@;
    new_devices.append(&mut tail);
    proof {
        assert(new_devices@ == named_view + unnamed_view);
        assert(new_devices@.subrange(0, split) =~= named_view);
        assert(new_devices@.subrange(split, new_devices@.len() as int) =~= unnamed_view);
    }
    let r = (paired_sorted, new_devices);
    proof {
        assert(exists|sp: int|
            {
                &&& 0 <= sp <= r.1@.len()
                &&& (#[trigger] r.1@.subrange(0, sp)).to_multiset() == marked_all(
                    orig,
                    favs,
                ).filter(|d: Device| named_pred(d)).to_multiset()
                &&& r.1@.subrange(sp, r.1@.len() as int).to_multiset() == marked_all(
                    orig,
                    favs,
                ).filter(|d: Device| unnamed_pred(d)).to_multiset()
                &&& sorted_by_order(r.1@.subrange(0, sp), DeviceOrder::Alias)
                &&& sorted_by_order(r.1@.subrange(sp, r.1@.len() as int), DeviceOrder::Addr)
            }) by {
            assert(r.1@.subrange(0, split).to_multiset() == marked_all(orig, favs).filter(
                |d: Device| named_pred(d),
            ).to_multiset());
            assert(r.1@.subrange(split, r.1@.len() as int).to_multiset() == marked_all(
                orig,
                favs,
            ).filter(|d: Device| unnamed_pred(d)).to_multiset());
            assert(sorted_by_order(r.1@.subrange(0, split), DeviceOrder::Alias));
            assert(sorted_by_order(r.1@.subrange(split, r.1@.len() as int), DeviceOrder::Addr));
        }
    }
    r
}

} // verus!
