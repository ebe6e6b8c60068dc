//! The key-binding and layout configuration as plain values. Reading the
//! configuration file and decoding it stay outside; this module owns the
//! defaults and the meaning of the configured strings.

use vstd::prelude::*;
use vstd::string::StrSliceExecFns;

use crate::requests::enter_passkey::{all_decimal_digits, decimal_value, lemma_decimal_value_bound};
use crate::strings::str_eq;

verus! {

/// Table width: sized in columns, or fitted automatically.
#[derive(Debug, Clone, Copy, PartialEq, Eq, Structural)]
pub enum Width {
    Auto,
    Size(u16),
}

impl Default for Width {
    fn default() -> (r: Self)
        ensures
            r == Width::Auto,
    {
        Width::Auto
    }
}

/// How the main layout distributes spare space; mirrors the terminal
/// library's flex modes by name.
#[derive(Debug, Clone, Copy, PartialEq, Eq, Structural)]
pub enum FlexLayout {
    Legacy,
    Start,
    End,
    Center,
    SpaceAround,
    SpaceBetween,
}

/// Key bindings that act on the selected adapter.
#[derive(Debug, Clone, Copy, PartialEq, Eq, Structural)]
pub struct Adapter {
    pub toggle_pairing: char,
    pub toggle_power: char,
    pub toggle_discovery: char,
}

/// Key bindings that act on a paired device.
#[derive(Debug, Clone, Copy, PartialEq, Eq, Structural)]
pub struct PairedDevice {
    pub unpair: char,
    pub toggle_trust: char,
    pub toggle_connect: char,
    pub rename: char,
}

/// Key bindings that act on a newly discovered device.
#[derive(Debug, Clone, Copy, PartialEq, Eq, Structural)]
pub struct NewDevice {
    pub pair: char,
}

/// The whole configuration.
#[derive(Debug, Clone, Copy, PartialEq, Eq, Structural)]
pub struct Config {
    pub layout: FlexLayout,
    pub width: Width,
    pub toggle_scanning: char,
    pub adapter: Adapter,
    pub paired_device: PairedDevice,
    pub new_device: NewDevice,
}

pub fn default_toggle_scanning() -> (r: char)
    ensures
        r == 's',
{
    's'
}

pub fn default_toggle_adapter_pairing() -> (r: char)
    ensures
        r == 'p',
{
    'p'
}

pub fn default_toggle_adapter_power() -> (r: char)
    ensures
        r == 'o',
{
    'o'
}

pub fn default_toggle_adapter_discovery() -> (r: char)
    ensures
        r == 'd',
{
    'd'
}

pub fn default_unpair_device() -> (r: char)
    ensures
        r == 'u',
{
    'u'
}

pub fn default_toggle_device_trust() -> (r: char)
    ensures
        r == 't',
{
    't'
}

pub fn default_set_new_name() -> (r: char)
    ensures
        r == 'e',
{
    'e'
}

impl Default for Adapter {
    fn default() -> (r: Self)
        ensures
            r == (Adapter { toggle_pairing: 'p', toggle_power: 'o', toggle_discovery: 'd' }),
    {
        Adapter {
            toggle_pairing: default_toggle_adapter_pairing(),
            toggle_power: default_toggle_adapter_power(),
            toggle_discovery: default_toggle_adapter_discovery(),
        }
    }
}

impl Default for PairedDevice {
    fn default() -> (r: Self)
        ensures
            r == (PairedDevice {
                unpair: 'u',
                toggle_trust: 't',
                toggle_connect: ' ',
                rename: 'e',
            }),
    {
        PairedDevice {
            unpair: default_unpair_device(),
            toggle_trust: default_toggle_device_trust(),
            toggle_connect: ' ',
            rename: default_set_new_name(),
        }
    }
}

impl Default for NewDevice {
    fn default() -> (r: Self)
        ensures
            r == (NewDevice { pair: 'p' }),
    {
        NewDevice { pair: 'p' }
    }
}

impl Default for Config {
    fn default() -> (r: Self)
        ensures
            r.layout == FlexLayout::SpaceAround,
            r.width == Width::Auto,
            r.toggle_scanning == 's',
            r.adapter == (Adapter { toggle_pairing: 'p', toggle_power: 'o', toggle_discovery: 'd' }),
            r.paired_device == (PairedDevice {
                unpair: 'u',
                toggle_trust: 't',
                toggle_connect: ' ',
                rename: 'e',
            }),
            r.new_device == (NewDevice { pair: 'p' }),
    {
        Config {
            layout: FlexLayout::SpaceAround,
            width: Width::default(),
            toggle_scanning: default_toggle_scanning(),
            adapter: Adapter::default(),
            paired_device: PairedDevice::default(),
            new_device: NewDevice::default(),
        }
    }
}

/// The layout a configured name stands for; an unknown name is rejected.
pub open spec fn layout_for_name(s: Seq<char>) -> Option<FlexLayout> {
    if s == "Legacy"@ {
        Some(FlexLayout::Legacy)
    } else if s == "Start"@ {
        Some(FlexLayout::Start)
    } else if s == "End"@ {
        Some(FlexLayout::End)
    } else if s == "Center"@ {
        Some(FlexLayout::Center)
    } else if s == "SpaceAround"@ {
        Some(FlexLayout::SpaceAround)
    } else if s == "SpaceBetween"@ {
        Some(FlexLayout::SpaceBetween)
    } else {
        None
    }
}

pub fn layout_from_name(s: &str) -> (r: Option<FlexLayout>)
    ensures
        r == layout_for_name(s@),
{
    if str_eq(s, "Legacy") {
        Some(FlexLayout::Legacy)
    } else if str_eq(s, "Start") {
        Some(FlexLayout::Start)
    } else if str_eq(s, "End") {
        Some(FlexLayout::End)
    } else if str_eq(s, "Center") {
        Some(FlexLayout::Center)
    } else if str_eq(s, "SpaceAround") {
        Some(FlexLayout::SpaceAround)
    } else if str_eq(s, "SpaceBetween") {
        Some(FlexLayout::SpaceBetween)
    } else {
        None
    }
}

/// A width setting is `auto`, or decimal digits whose value fits in sixteen
/// bits.
pub open spec fn width_for_text(s: Seq<char>) -> Option<Width> {
    if s == "auto"@ {
        Some(Width::Auto)
    } else if s.len() > 0 && all_decimal_digits(s) && decimal_value(s) <= u16::MAX {
        Some(Width::Size(decimal_value(s) as u16))
    } else {
        None
    }
}

/// A digit string's value only grows as digits are appended.
proof fn lemma_decimal_value_grows(s: Seq<char>, i: int)
    requires
        all_decimal_digits(s),
        0 <= i <= s.len(),
    ensures
        decimal_value(s.subrange(0, i)) <= decimal_value(s),
    decreases s.len() - i,
{
    if i < s.len() {
        let t = s.subrange(0, i + 1);
        assert(t.drop_last() == s.subrange(0, i));
        assert(all_decimal_digits(t)) by {
            assert(forall|j: int| 0 <= j < t.len() ==> t[j] == #[trigger] s[j]);
        }
        lemma_decimal_value_bound(s.subrange(0, i));
        lemma_decimal_value_bound(t);
        assert(decimal_value(t) == decimal_value(s.subrange(0, i)) * 10 + (t.last() as int
            - '0' as int));
        assert(decimal_value(s.subrange(0, i)) <= decimal_value(t));
        lemma_decimal_value_grows(s, i + 1);
        assert(s.subrange(0, s.len() as int) == s);
    } else {
        assert(s.subrange(0, s.len() as int) == s);
    }
}

/// Reads a configured width: the word `auto`, or a decimal number of
/// columns up to 65535.
pub fn width_from_text(s: &str) -> (r: Option<Width>)
    ensures
        r == width_for_text(s@),
{
    if str_eq(s, "auto") {
        return Some(Width::Auto);
    }
    let n = s.unicode_len();
    if n == 0 {
        return None;
    }
    let mut acc: u32 = 0;
    let mut i: usize = 0;
    while i < n
        invariant
            n == s@.len(),
            n > 0,
            i <= n,
            s@ != "auto"@,
            all_decimal_digits(s@.subrange(0, i as int)),
            acc as int == decimal_value(s@.subrange(0, i as int)),
            acc <= u16::MAX,
        decreases n - i,
    {
        let c = s.get_char(i);
        if c < '0' || c > '9' {
            proof {
                assert(!all_decimal_digits(s@));
            }
            return None;
        }
        let d = (c as u32) - ('0' as u32);
        let next = acc * 10 + d;
        proof {
            let pre = s@.subrange(0, i as int);
            let nxt = s@.subrange(0, i + 1 as int);
            assert(nxt.drop_last() == pre);
            assert(nxt.last() == s@[i as int]);
            assert(all_decimal_digits(nxt)) by {
                assert(forall|j: int| 0 <= j < nxt.len() ==> nxt[j] == #[trigger] s@[j]);
            }
        }
        if next > u16::MAX as u32 {
            proof {
                if all_decimal_digits(s@) && decimal_value(s@) <= u16::MAX {
                    lemma_decimal_value_grows(s@, i + 1);
                }
            }
            return None;
        }
        acc = next;
        i += 1;
    }
    proof {
        assert(s@.subrange(0, n as int) == s@);
    }
    Some(Width::Size(acc as u16))
}

} // verus!
