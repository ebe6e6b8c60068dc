//! Application-level state shared by the UI loop: which block of the
//! interface holds the focus, the colour scheme, and the error type the
//! state machines report.

use vstd::prelude::*;
use vstd::pervasive::arbitrary;

use crate::bluetooth::Controller;
use crate::notification::{age_notifications, aged, Notification};
use crate::requests::{DisplayPasskeyPolicy, Requests};
use crate::spinner::Spinner;
use crate::strings::str_eq;

verus! {

/// Whether some controller in the list carries this adapter name.
pub open spec fn has_controller(cs: Seq<Controller>, name: Seq<char>) -> bool {
    exists|i: int| 0 <= i < cs.len() && (#[trigger] cs[i]).name@ == name
}

/// The first controller with this adapter name.
pub open spec fn find_controller(cs: Seq<Controller>, name: Seq<char>) -> Controller
    recommends
        has_controller(cs, name),
    decreases cs.len(),
{
    if cs.len() == 0 {
        arbitrary()
    } else if cs.first().name@ == name {
        cs.first()
    } else {
        find_controller(cs.drop_first(), name)
    }
}

/// A kept controller with the freshly read properties: everything is taken
/// from the refreshed record except the name that identifies it and the
/// locally tracked scanning flag.
pub open spec fn refreshed_with(c: Controller, r: Controller) -> Controller {
    Controller {
        name: c.name,
        is_scanning: c.is_scanning,
        alias: r.alias,
        is_powered: r.is_powered,
        is_pairable: r.is_pairable,
        is_discoverable: r.is_discoverable,
        paired_devices: r.paired_devices,
        new_devices: r.new_devices,
    }
}

/// Adapter names identify controllers, so no name appears twice.
pub open spec fn controller_names_unique(cs: Seq<Controller>) -> bool {
    forall|i: int, j: int|
        0 <= i < j < cs.len() ==> (#[trigger] cs[i]).name@ != (#[trigger] cs[j]).name@
}

/// The old controllers the snapshot still reports, in their old order.
pub open spec fn kept_of(olds: Seq<Controller>, refreshed: Seq<Controller>) -> Seq<Controller> {
    olds.filter(|c: Controller| has_controller(refreshed, c.name@))
}

/// The snapshot's controllers that are new to the list, in snapshot order.
pub open spec fn adds_of(olds: Seq<Controller>, refreshed: Seq<Controller>) -> Seq<Controller> {
    refreshed.filter(|r: Controller| !has_controller(olds, r.name@))
}

/// What one refresh leaves in the adapter list: the surviving controllers in
/// their old order, updated in place, followed by the newly plugged-in ones
/// in the order the snapshot reported them.
pub open spec fn merged_controllers(
    olds: Seq<Controller>,
    refreshed: Seq<Controller>,
) -> Seq<Controller> {
    kept_of(olds, refreshed).map_values(
        |c: Controller| refreshed_with(c, find_controller(refreshed, c.name@)),
    ) + adds_of(olds, refreshed)
}

/// Where the adapter selection lands after `stale` adapters left: it backs
/// up one step per removal, never past the top, and clears only when
/// nothing survived.
pub open spec fn adjusted_selection(sel: Option<usize>, kept: int, stale: int) -> Option<usize> {
    if stale == 0 {
        sel
    } else if kept == 0 {
        None
    } else {
        match sel {
            Some(i) => Some(
                (if i >= stale {
                    i - stale
                } else {
                    0
                }) as usize,
            ),
            None => Some(0usize),
        }
    }
}

proof fn lemma_has_controller_snoc(cs: Seq<Controller>, r: Controller, name: Seq<char>)
    ensures
        has_controller(cs.push(r), name) == (has_controller(cs, name) || r.name@ == name),
{
    let ext = cs.push(r);
    if has_controller(cs, name) {
        let i = choose|i: int| 0 <= i < cs.len() && (#[trigger] cs[i]).name@ == name;
        assert(ext[i].name@ == name);
    }
    if r.name@ == name {
        assert(ext[cs.len() as int].name@ == name);
    }
    if has_controller(ext, name) {
        let i = choose|i: int| 0 <= i < ext.len() && (#[trigger] ext[i]).name@ == name;
        if i < cs.len() {
            assert(cs[i].name@ == name);
        } else {
            assert(r.name@ == name);
        }
    }
}

proof fn lemma_find_controller_snoc(cs: Seq<Controller>, r: Controller, name: Seq<char>)
    ensures
        has_controller(cs, name) ==> find_controller(cs.push(r), name) == find_controller(
            cs,
            name,
        ),
        !has_controller(cs, name) && r.name@ == name ==> find_controller(cs.push(r), name) == r,
    decreases cs.len(),
{
    let ext = cs.push(r);
    if cs.len() == 0 {
        assert(ext.first() == r);
    } else {
        assert(ext.first() == cs.first());
        assert(ext.drop_first() =~= cs.drop_first().push(r));
        lemma_find_controller_snoc(cs.drop_first(), r, name);
        if cs.first().name@ == name {
            assert(has_controller(cs, name)) by {
                assert(cs[0].name@ == name);
            }
        } else {
            assert(has_controller(cs, name) == has_controller(cs.drop_first(), name)) by {
                lemma_has_controller_drop_first(cs, name);
            }
        }
    }
}

/// Everything the filter kept was in the list.
proof fn lemma_filter_is_subset(s: Seq<Controller>, pred: spec_fn(Controller) -> bool, x: Controller)
    requires
        s.filter(pred).contains(x),
    ensures
        s.contains(x),
        pred(x),
    decreases s.len(),
{
    reveal_with_fuel(Seq::filter, 2);
    if s.len() > 0 {
        if pred(s.last()) && x == s.last() {
            assert(s[s.len() - 1] == x);
        } else {
            assert(s.filter(pred) == s.drop_last().filter(pred) + (if pred(s.last()) {
                seq![s.last()]
            } else {
                Seq::<Controller>::empty()
            }));
            assert(s.drop_last().filter(pred).contains(x)) by {
                let t = choose|t: int|
                    0 <= t < s.filter(pred).len() && s.filter(pred)[t] == x;
                assert(s.drop_last().filter(pred)[t] == x);
            }
            lemma_filter_is_subset(s.drop_last(), pred, x);
            let t = choose|t: int| 0 <= t < s.drop_last().len() && s.drop_last()[t] == x;
            assert(s[t] == x);
        }
    }
}

proof fn lemma_has_controller_drop_first(cs: Seq<Controller>, name: Seq<char>)
    requires
        cs.len() > 0,
        cs.first().name@ != name,
    ensures
        has_controller(cs, name) == has_controller(cs.drop_first(), name),
{
    if has_controller(cs, name) {
        let i = choose|i: int| 0 <= i < cs.len() && (#[trigger] cs[i]).name@ == name;
        assert(i > 0);
        assert(cs.drop_first()[i - 1].name@ == name);
    }
    if has_controller(cs.drop_first(), name) {
        let i = choose|i: int|
            0 <= i < cs.drop_first().len() && (#[trigger] cs.drop_first()[i]).name@ == name;
        assert(cs[i + 1].name@ == name);
    }
}

/// Which part of the interface currently receives key events.
#[derive(Debug, Clone, Copy, PartialEq, Eq, Structural)]
pub enum FocusedBlock {
    Adapter,
    PairedDevices,
    NewDevices,
    RequestConfirmation,
    EnterPinCode,
    EnterPasskey,
    DisplayPinCode,
    DisplayPasskey,
    SetDeviceAliasBox,
    Help,
}

/// Colour scheme, picked from the terminal background's luminance.
#[derive(Debug, Clone, Copy, PartialEq, Eq, Structural)]
pub enum ColorMode {
    Dark,
    Light,
}

/// The one failure the request state machines can report: a channel whose
/// receiving side is gone. It is treated like a cancellation and never
/// panics.
#[derive(Debug, Clone, Copy, PartialEq, Eq, Structural)]
pub enum AppError {
    ChannelClosed,
}

pub type AppResult<T> = Result<T, AppError>;

/// The interface's state, apart from what the transport owns: the adapter
/// list with its selections, the open prompts, the notifications and the
/// spinner.
#[derive(Debug)]
pub struct App {
    pub running: bool,
    pub spinner: Spinner,
    pub notifications: Vec<Notification>,
    pub controllers: Vec<Controller>,
    pub controller_selected: Option<usize>,
    pub paired_selected: Option<usize>,
    pub new_selected: Option<usize>,
    pub focused_block: FocusedBlock,
    pub requests: Requests,
    pub display_passkey_policy: DisplayPasskeyPolicy,
    pub color_mode: ColorMode,
}

impl App {
    /// What the app holds before the first refresh cycle fills it.
    pub fn new(color_mode: ColorMode, display_passkey_policy: DisplayPasskeyPolicy) -> (r: App)
        ensures
            r.running,
            r.spinner == (Spinner { active: false, index: 0usize }),
            r.notifications@ == Seq::<Notification>::empty(),
            r.controllers@ == Seq::<Controller>::empty(),
            r.controller_selected is None,
            r.paired_selected is None,
            r.new_selected is None,
            r.focused_block == FocusedBlock::PairedDevices,
            r.requests.confirmation is None,
            r.requests.enter_pin_code is None,
            r.requests.enter_passkey is None,
            r.requests.display_pin_code is None,
            r.requests.display_passkey is None,
            r.display_passkey_policy == display_passkey_policy,
            r.color_mode == color_mode,
    {
        App {
            running: true,
            spinner: Spinner::default(),
            notifications: Vec::new(),
            controllers: Vec::new(),
            controller_selected: None,
            paired_selected: None,
            new_selected: None,
            focused_block: FocusedBlock::PairedDevices,
            requests: Requests::default(),
            display_passkey_policy,
            color_mode,
        }
    }

    /// Stops the event loop at the next turn.
    pub fn quit(&mut self)
        ensures
            *final(self) == (App { running: false, ..*old(self) }),
    {
        self.running = false;
    }

    /// Moves the device selections back to the top of the selected
    /// adapter's lists, or clears them where a list is empty.
    pub fn reset_devices_state(&mut self)
        requires
            match old(self).controller_selected {
                Some(i) => i < old(self).controllers@.len(),
                None => true,
            },
        ensures
            final(self).controllers == old(self).controllers,
            final(self).controller_selected == old(self).controller_selected,
            match old(self).controller_selected {
                Some(i) => {
                    &&& i < old(self).controllers@.len()
                    &&& final(self).paired_selected == (if old(
                        self,
                    ).controllers@[i as int].paired_devices@.len() > 0 {
                        Some(0usize)
                    } else {
                        None::<usize>
                    })
                    &&& final(self).new_selected == (if old(
                        self,
                    ).controllers@[i as int].new_devices@.len() > 0 {
                        Some(0usize)
                    } else {
                        None::<usize>
                    })
                },
                None => *final(self) == *old(self),
            },
    {
        if let Some(selected) = self.controller_selected {
            let controller = &self.controllers[selected];
            if controller.paired_devices.len() > 0 {
                self.paired_selected = Some(0);
            } else {
                self.paired_selected = None;
            }
            if controller.new_devices.len() > 0 {
                self.new_selected = Some(0);
            } else {
                self.new_selected = None;
            }
        }
    }

    /// One timer tick: expired notifications leave, the rest age, and an
    /// active spinner advances. The refresh of the adapter snapshot that
    /// follows each tick is the transport's business.
    pub fn tick(&mut self)
        requires
            old(self).spinner.wf(),
        ensures
            final(self).notifications@ == aged(old(self).notifications@),
            final(self).spinner.wf(),
            final(self).spinner.active == old(self).spinner.active,
            old(self).spinner.active ==> final(self).spinner.index == (old(self).spinner.index
                + 1) % 2,
            !old(self).spinner.active ==> final(self).spinner == old(self).spinner,
            final(self).running == old(self).running,
            final(self).controllers == old(self).controllers,
            final(self).requests == old(self).requests,
    {
        age_notifications(&mut self.notifications);
        if self.spinner.active {
            self.spinner.update();
        }
    }

    /// Folds a freshly read adapter snapshot into the list: adapters that
    /// disappeared leave (and the selection backs up), surviving ones take
    /// the refreshed properties while keeping their name and scanning flag,
    /// and new ones are appended. Names stay unique.
    pub fn apply_refresh(&mut self, refreshed: Vec<Controller>)
        requires
            controller_names_unique(old(self).controllers@),
            controller_names_unique(refreshed@),
        ensures
            final(self).controllers@ == merged_controllers(old(self).controllers@, refreshed@),
            controller_names_unique(final(self).controllers@),
            final(self).controller_selected == adjusted_selection(
                old(self).controller_selected,
                kept_of(old(self).controllers@, refreshed@).len() as int,
                old(self).controllers@.len() - kept_of(old(self).controllers@, refreshed@).len(),
            ),
            final(self).running == old(self).running,
            final(self).spinner == old(self).spinner,
            final(self).notifications == old(self).notifications,
            final(self).paired_selected == old(self).paired_selected,
            final(self).new_selected == old(self).new_selected,
            final(self).focused_block == old(self).focused_block,
            final(self).requests == old(self).requests,
    {
        let ghost orig = old(self).controllers@;
        let ghost rs = refreshed@;

        // Keep the adapters the snapshot still reports, in order.
        let mut olds: Vec<Controller> = Vec::new();
        core::mem::swap(&mut olds, &mut self.controllers);
        let total = olds.len();
        let mut kept: Vec<Controller> = Vec::new();
        let mut stale: usize = 0;
        let ghost mut k: int = 0;
        while olds.len() > 0
            invariant
                orig == old(self).controllers@,
                rs == refreshed@,
                total == orig.len(),
                0 <= k <= total,
                k + olds@.len() == total,
                olds@ =~= orig.subrange(k, total as int),
                kept@ == kept_of(orig.subrange(0, k), rs),
                stale as int == k - kept@.len(),
            decreases olds@.len(),
        {
            let ghost pre_rest = olds@;
            let c = olds.remove(0);
            proof {
                assert(pre_rest[0] == orig.subrange(k, total as int)[0]);
                assert(c == orig[k]);
            }
            let present = has_controller_exec(&refreshed, &c.name);
            let ghost prefix = orig.subrange(0, k);
            let ghost next = orig.subrange(0, k + 1);
            proof {
                assert(next.drop_last() =~= prefix);
                assert(next.last() == orig[k]);
                reveal_with_fuel(Seq::filter, 2);
                assert(next.filter(|c: Controller| has_controller(rs, c.name@)) == prefix.filter(
                    |c: Controller| has_controller(rs, c.name@),
                ) + (if has_controller(rs, orig[k].name@) {
                    seq![orig[k]]
                } else {
                    Seq::<Controller>::empty()
                }));
            }
            if present {
                kept.push(c);
            } else {
                stale += 1;
            }
            proof {
                k = k + 1;
                assert(olds@ =~= orig.subrange(k, total as int));
            }
        }
        proof {
            assert(orig.subrange(0, total as int) =~= orig);
        }

        // The selection backs up one step per adapter that left.
        let kept_len = kept.len();
        if stale > 0 {
            if kept_len == 0 {
                self.controller_selected = None;
            } else {
                let sel = match self.controller_selected {
                    Some(i) => if i >= stale {
                        i - stale
                    } else {
                        0
                    },
                    None => 0,
                };
                self.controller_selected = Some(sel);
            }
        }

        // Fold the snapshot in: a known name updates its controller in
        // place, an unknown one is appended.
        let ghost kept0 = kept@;
        proof {
            assert(controller_names_unique(kept0) && forall|p: int|
                0 <= p < kept0.len() ==> has_controller(rs, (#[trigger] kept0[p]).name@)
                    && has_controller(orig, kept0[p].name@)) by {
                lemma_kept_controllers(orig, rs);
            }
        }
        let mut incoming = refreshed;
        let ghost mut j: int = 0;
        while incoming.len() > 0
            invariant
                rs == refreshed@,
                orig == old(self).controllers@,
                controller_names_unique(rs),
                controller_names_unique(orig),
                controller_names_unique(kept0),
                kept0 == kept_of(orig, rs),
                forall|p: int|
                    0 <= p < kept0.len() ==> has_controller(rs, (#[trigger] kept0[p]).name@)
                        && has_controller(orig, kept0[p].name@),
                0 <= j <= rs.len(),
                incoming@ =~= rs.subrange(j, rs.len() as int),
                kept@.len() >= kept0.len(),
                forall|p: int|
                    0 <= p < kept0.len() ==> (#[trigger] kept@[p]).name@ == kept0[p].name@,
                forall|p: int|
                    0 <= p < kept0.len() ==> kept@[p] == (if has_controller(
                        rs.subrange(0, j),
                        kept0[p].name@,
                    ) {
                        refreshed_with(
                            kept0[p],
                            find_controller(rs.subrange(0, j), kept0[p].name@),
                        )
                    } else {
                        kept0[p]
                    }),
                kept@.subrange(kept0.len() as int, kept@.len() as int) =~= adds_of(
                    orig,
                    rs.subrange(0, j),
                ),
                controller_names_unique(kept@),
            decreases incoming@.len(),
        {
            let ghost pre_in = incoming@;
            let r = incoming.remove(0);
            proof {
                assert(pre_in[0] == rs.subrange(j, rs.len() as int)[0]);
                assert(r == rs[j]);
            }
            let pos = find_controller_index(&kept, &r.name);
            let ghost prefix = rs.subrange(0, j);
            let ghost next = rs.subrange(0, j + 1);
            proof {
                assert(next.drop_last() =~= prefix);
                assert(next.last() == rs[j]);
                assert(!has_controller(prefix, r.name@)) by {
                    if has_controller(prefix, r.name@) {
                        let t = choose|t: int|
                            0 <= t < prefix.len() && (#[trigger] prefix[t]).name@ == r.name@;
                        assert(rs[t].name@ == rs[j].name@ && t < j);
                    }
                }
                reveal_with_fuel(Seq::filter, 2);
                assert(adds_of(orig, next) == adds_of(orig, prefix) + (if !has_controller(
                    orig,
                    rs[j].name@,
                ) {
                    seq![rs[j]]
                } else {
                    Seq::<Controller>::empty()
                }));
                assert(forall|p: int|
                    0 <= p < kept0.len() ==> {
                        let name = (#[trigger] kept0[p]).name@;
                        (has_controller(next, name) == (has_controller(prefix, name) || name
                            == r.name@)) && (has_controller(prefix, name) ==> find_controller(
                            next,
                            name,
                        ) == find_controller(prefix, name)) && (!has_controller(prefix, name)
                            && name == r.name@ ==> find_controller(next, name) == r)
                    }) by {
                    assert forall|p: int| 0 <= p < kept0.len() implies {
                        let name = (#[trigger] kept0[p]).name@;
                        (has_controller(next, name) == (has_controller(prefix, name) || name
                            == r.name@)) && (has_controller(prefix, name) ==> find_controller(
                            next,
                            name,
                        ) == find_controller(prefix, name)) && (!has_controller(prefix, name)
                            && name == r.name@ ==> find_controller(next, name) == r)
                    } by {
                        assert(next =~= prefix.push(r));
                        lemma_has_controller_snoc(prefix, r, kept0[p].name@);
                        lemma_find_controller_snoc(prefix, r, kept0[p].name@);
                    }
                }
            }
            match pos {
                Some(i) => {
                    proof {
                        assert(i < kept0.len()) by {
                            if i >= kept0.len() {
                                let adds = kept@.subrange(
                                    kept0.len() as int,
                                    kept@.len() as int,
                                );
                                assert(adds[i - kept0.len()] == kept@[i as int]);
                                assert(adds_of(orig, prefix).contains(kept@[i as int]));
                                lemma_filter_is_subset(
                                    prefix,
                                    |x: Controller| !has_controller(orig, x.name@),
                                    kept@[i as int],
                                );
                                let t = choose|t: int|
                                    0 <= t < prefix.len() && prefix[t] == kept@[i as int];
                                assert(rs[t].name@ == rs[j].name@ && t < j);
                            }
                        }
                        assert(kept0[i as int].name@ == r.name@);
                        assert(!has_controller(prefix, kept0[i as int].name@));
                        assert(kept@[i as int] == kept0[i as int]);
                    }
                    let ghost kept_pre = kept@;
                    let old_c = kept.remove(i);
                    let name = old_c.name;
                    let is_scanning = old_c.is_scanning;
                    let updated = Controller {
                        name,
                        alias: r.alias,
                        is_powered: r.is_powered,
                        is_pairable: r.is_pairable,
                        is_discoverable: r.is_discoverable,
                        is_scanning,
                        paired_devices: r.paired_devices,
                        new_devices: r.new_devices,
                    };
                    proof {
                        assert(updated == refreshed_with(kept0[i as int], rs[j]));
                    }
                    kept.insert(i, updated);
                    proof {
                        assert(kept@ =~= kept_pre.update(i as int, updated));
                        assert(kept@.subrange(kept0.len() as int, kept@.len() as int)
                            =~= kept_pre.subrange(kept0.len() as int, kept_pre.len() as int));
                        assert(controller_names_unique(kept@)) by {
                            assert(forall|p: int|
                                0 <= p < kept@.len() ==> (#[trigger] kept@[p]).name@
                                    == kept_pre[p].name@);
                        }
                    }
                },
                None => {
                    proof {
                        assert(!has_controller(orig, r.name@)) by {
                            if has_controller(orig, r.name@) {
                                let t = choose|t: int|
                                    0 <= t < orig.len() && (#[trigger] orig[t]).name@ == r.name@;
                                assert(kept_of(orig, rs).contains(orig[t])) by {
                                    assert(has_controller(rs, orig[t].name@)) by {
                                        assert(rs[j].name@ == orig[t].name@);
                                    }
                                    Seq::lemma_filter_contains(
                                        orig,
                                        |c: Controller| has_controller(rs, c.name@),
                                        t,
                                    );
                                }
                                let q = choose|q: int|
                                    0 <= q < kept0.len() && kept0[q] == orig[t];
                                assert(kept@[q].name@ == r.name@);
                            }
                        }
                    }
                    let ghost kept_pre = kept@;
                    kept.push(r);
                    proof {
                        assert(kept@.subrange(kept0.len() as int, kept@.len() as int)
                            =~= kept_pre.subrange(kept0.len() as int, kept_pre.len() as int).push(
                            rs[j],
                        ));
                        assert(controller_names_unique(kept@)) by {
                            assert(forall|p: int|
                                0 <= p < kept_pre.len() ==> (#[trigger] kept@[p]) == kept_pre[p]);
                        }
                    }
                },
            }
            proof {
                j = j + 1;
                assert(incoming@ =~= rs.subrange(j, rs.len() as int));
            }
        }
        proof {
            assert(rs.subrange(0, rs.len() as int) =~= rs);
        }
        self.controllers = kept;
        proof {
            assert(final(self).controllers@ =~= merged_controllers(orig, rs)) by {
                assert(kept0 == kept_of(orig, rs));
                assert(forall|p: int|
                    0 <= p < kept0.len() ==> final(self).controllers@[p] == refreshed_with(
                        #[trigger] kept0[p],
                        find_controller(rs, kept0[p].name@),
                    ));
            }
        }
    }
}

/// Whether some controller in the list carries this adapter name.
fn has_controller_exec(cs: &Vec<Controller>, name: &String) -> (r: bool)
    ensures
        r == has_controller(cs@, name@),
{
    let mut i: usize = 0;
    while i < cs.len()
        invariant
            i <= cs@.len(),
            forall|t: int| 0 <= t < i ==> (#[trigger] cs@[t]).name@ != name@,
        decreases cs@.len() - i,
    {
        if str_eq(cs[i].name.as_str(), name.as_str()) {
            proof {
                assert(cs@[i as int].name@ == name@);
            }
            return true;
        }
        i += 1;
    }
    false
}

/// The first position whose controller carries this adapter name.
fn find_controller_index(cs: &Vec<Controller>, name: &String) -> (r: Option<usize>)
    ensures
        match r {
            Some(i) => i < cs@.len() && cs@[i as int].name@ == name@,
            None => forall|t: int| 0 <= t < cs@.len() ==> (#[trigger] cs@[t]).name@ != name@,
        },
{
    let mut i: usize = 0;
    while i < cs.len()
        invariant
            i <= cs@.len(),
            forall|t: int| 0 <= t < i ==> (#[trigger] cs@[t]).name@ != name@,
        decreases cs@.len() - i,
    {
        if str_eq(cs[i].name.as_str(), name.as_str()) {
            return Some(i);
        }
        i += 1;
    }
    None
}

/// The controllers a refresh keeps are a sublist of the old ones: their
/// names stay unique, and each name is known to both lists.
proof fn lemma_kept_controllers(orig: Seq<Controller>, rs: Seq<Controller>)
    requires
        controller_names_unique(orig),
    ensures
        controller_names_unique(kept_of(orig, rs)),
        forall|p: int|
            0 <= p < kept_of(orig, rs).len() ==> has_controller(
                rs,
                (#[trigger] kept_of(orig, rs)[p]).name@,
            ) && has_controller(orig, kept_of(orig, rs)[p].name@),
    decreases orig.len(),
{
    let pred = |c: Controller| has_controller(rs, c.name@);
    let kept = kept_of(orig, rs);
    if orig.len() == 0 {
    } else {
        assert(controller_names_unique(orig.drop_last())) by {
            assert(forall|a: int, b: int|
                0 <= a < b < orig.len() - 1 ==> (#[trigger] orig.drop_last()[a]).name@ != (
                #[trigger] orig.drop_last()[b]).name@);
        }
        lemma_kept_controllers(orig.drop_last(), rs);
        reveal_with_fuel(Seq::filter, 2);
        let kept_head = kept_of(orig.drop_last(), rs);
        assert(kept == kept_head + (if pred(orig.last()) {
            seq![orig.last()]
        } else {
            Seq::<Controller>::empty()
        }));
        assert(forall|p: int|
            0 <= p < kept_head.len() ==> #[trigger] kept[p] == kept_head[p]);
        assert(forall|p: int|
            0 <= p < kept_head.len() ==> orig.drop_last().contains(#[trigger] kept_head[p])) by {
            assert(forall|p: int|
                0 <= p < kept_head.len() ==> orig.drop_last().filter(pred).contains(
                    #[trigger] kept_head[p],
                ));
            assert(forall|x: Controller|
                orig.drop_last().filter(pred).contains(x) ==> orig.drop_last().contains(x)) by {
                assert forall|x: Controller|
                    orig.drop_last().filter(pred).contains(x) implies orig.drop_last().contains(
                    x,
                ) by {
                    lemma_filter_is_subset(orig.drop_last(), pred, x);
                }
            }
        }
        if pred(orig.last()) {
            assert(kept.last() == orig.last());
            assert(has_controller(orig, orig.last().name@)) by {
                assert(orig[orig.len() - 1].name@ == orig.last().name@);
            }
            assert(forall|p: int|
                0 <= p < kept.len() - 1 ==> (#[trigger] kept[p]).name@ != orig.last().name@) by {
                assert forall|p: int| 0 <= p < kept.len() - 1 implies (#[trigger] kept[p]).name@
                    != orig.last().name@ by {
                    let t = choose|t: int|
                        0 <= t < orig.drop_last().len() && orig.drop_last()[t] == kept[p];
                    assert(orig[t] == kept[p] && t < orig.len() - 1);
                }
            }
        }
        assert(forall|p: int|
            0 <= p < kept.len() ==> has_controller(orig, (#[trigger] kept[p]).name@)) by {
            assert forall|p: int| 0 <= p < kept.len() implies has_controller(
                orig,
                (#[trigger] kept[p]).name@,
            ) by {
                if p < kept_head.len() {
                    let t = choose|t: int|
                        0 <= t < orig.drop_last().len() && (#[trigger] orig.drop_last()[t]).name@
                            == kept_head[p].name@;
                    assert(orig[t].name@ == kept[p].name@);
                } else {
                    assert(orig[orig.len() - 1].name@ == kept[p].name@);
                }
            }
        }
    }
}

} // verus!
