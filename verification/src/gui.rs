//! The texts that the debug windows show: ids or `N/A`, and the list of
//! VIIPER bus ids in use.
use vstd::prelude::*;
use std::collections::BTreeSet;
use vstd::std_specs::btree::{increasing_seq, spec_btree_keys_iter};
use vstd::std_specs::iter::IteratorSpec;
use vstd::laws_cmp::obeys_cmp;
use vstd::std_specs::cmp::OrdSpec;
use crate::actions::EnforcerCommand;
use crate::text::{decimal, push_decimal};

verus! {

/// Each element is smaller than the ones after it.
pub open spec fn strictly_increasing(s: Seq<u32>) -> bool {
    forall|i: int, j: int| 0 <= i < j < s.len() ==> s[i] < s[j]
}

/// The numbers joined by `, ` in decimal.
pub open spec fn joined_decimals(s: Seq<u32>) -> Seq<char>
    decreases s.len(),
{
    if s.len() == 0 {
        Seq::empty()
    } else if s.len() == 1 {
        decimal(s[0] as nat)
    } else {
        joined_decimals(s.subrange(0, s.len() - 1)) + ", "@ + decimal(s[s.len() - 1] as nat)
    }
}

/// The bus ids in use, each once and in increasing order: gathered in a
/// `BTreeSet` and read back in its order.
pub fn distinct_sorted(ids: &Vec<u32>) -> (r: Vec<u32>)
    ensures
        strictly_increasing(r@),
        r@.to_set() == ids@.to_set(),
{
    let mut set: BTreeSet<u32> = BTreeSet::new();
    let mut i: usize = 0;
    while i < ids.len()
        invariant
            i <= ids.len(),
            set@ == ids@.subrange(0, i as int).to_set(),
        decreases ids.len() - i,
    {
        set.insert(ids[i]);
        assert(ids@.subrange(0, i + 1) =~= ids@.subrange(0, i as int).push(ids@[i as int]));
        proof {
            ids@.subrange(0, i as int).lemma_push_to_set_commute(ids@[i as int]);
        }
        i = i + 1;
    }
    assert(ids@.subrange(0, ids.len() as int) =~= ids@);
    let ghost keys = spec_btree_keys_iter(&set).remaining();
    let mut r: Vec<u32> = Vec::new();
    for x in it: set.iter()
        invariant
            it.seq() == keys,
            r.len() == it.index(),
            forall|j: int| 0 <= j < r.len() ==> r@[j] == *it.seq()[j],
    {
        r.push(*x);
    }
    assert(r@ =~= keys.unref());
    proof {
        lemma_increasing_keys(keys);
    }
    r
}

/// An increasing sequence compares `Less` from each element to each later one.
proof fn lemma_increasing_compares_less<K: Ord>(s: Seq<K>)
    requires
        obeys_cmp::<K>(),
        increasing_seq(s),
    ensures
        forall|i: int, j: int| 0 <= i < j < s.len() ==> #[trigger] s[i].cmp_spec(&s[j]) is Less,
{
}

/// The keys of an ordered set of numbers come out in increasing order.
proof fn lemma_increasing_keys(keys: Seq<&u32>)
    requires
        increasing_seq(keys),
    ensures
        forall|i: int, j: int| 0 <= i < j < keys.len() ==> *keys[i] < *keys[j],
{
    assert(obeys_cmp::<u32>());
    assert(obeys_cmp::<&u32>());
    lemma_increasing_compares_less(keys);
    assert forall|i: int, j: int| 0 <= i < j < keys.len() implies *keys[i] < *keys[j] by {
        assert(OrdSpec::cmp_spec(&keys[i], &keys[j]) is Less);
    }
}

/// The bus ids line of the VIIPER window: `None` when no device is on a
/// bus, else the distinct bus ids in increasing order, joined by `, `.
pub fn bus_ids_label(ids: &Vec<u32>) -> (r: String)
    ensures
        ids.len() == 0 ==> r@ == "None"@,
        ids.len() > 0 ==> exists|s: Seq<u32>|
            strictly_increasing(s) && s.to_set() == ids@.to_set() && r@ == joined_decimals(s),
{
    if ids.len() == 0 {
        return String::from_str("None");
    }
    let sorted = distinct_sorted(ids);
    let mut r = String::new();
    let mut i: usize = 0;
    while i < sorted.len()
        invariant
            i <= sorted.len(),
            r@ == joined_decimals(sorted@.subrange(0, i as int)),
        decreases sorted.len() - i,
    {
        let ghost p = sorted@.subrange(0, i + 1);
        assert(p.subrange(0, p.len() - 1) =~= sorted@.subrange(0, i as int));
        if i > 0 {
            r.append(", ");
        } else {
            assert(sorted@.subrange(0, 0) =~= Seq::<u32>::empty());
        }
        push_decimal(&mut r, sorted[i] as u64);
        assert(r@ =~= joined_decimals(p));
        i = i + 1;
    }
    assert(sorted@.subrange(0, sorted.len() as int) =~= sorted@);
    r
}

/// An id as the debug windows show it: in decimal, or `N/A` when unknown.
pub fn id_label(id: Option<u64>) -> (r: String)
    ensures
        match id {
            Some(n) => r@ == decimal(n as nat),
            None => r@ == "N/A"@,
        },
{
    match id {
        Some(n) => crate::text::decimal_string(n),
        None => String::from_str("N/A"),
    }
}

/// Whether the Steam Input config section applies: the app id is known and
/// not 0.
pub fn has_app_id(app_id: Option<u32>) -> (r: bool)
    ensures
        r == (app_id matches Some(id) && id != 0),
{
    match app_id {
        Some(id) => id != 0,
        None => false,
    }
}

/// Whether any device is connected to VIIPER (the "Any device(s)
/// connected" line), given for each device whether it has a VIIPER device.
pub fn any_connected(has_viiper_device: &Vec<bool>) -> (r: bool)
    ensures
        r == exists|i: int| 0 <= i < has_viiper_device.len() && #[trigger] has_viiper_device@[i],
{
    let mut i: usize = 0;
    while i < has_viiper_device.len()
        invariant
            i <= has_viiper_device.len(),
            forall|j: int| 0 <= j < i ==> !#[trigger] has_viiper_device@[j],
        decreases has_viiper_device.len() - i,
    {
        if has_viiper_device[i] {
            return true;
        }
        i = i + 1;
    }
    false
}

/// The request to turn keyboard/mouse emulation on or off.
#[derive(Debug, Clone, Copy, PartialEq, Eq, Structural)]
pub struct SetKbmEmulation {
    pub enabled: bool,
    pub initialize: bool,
}

/// The keyboard/mouse emulation checkbox: it can only be changed when VIIPER
/// is not on this machine (a loopback address), and a change from the
/// current setting asks the SDL loop to turn emulation to the new value.
pub fn kbm_toggle(address_is_loopback: bool, current: bool, checked: bool) -> (r: Option<SetKbmEmulation>)
    ensures
        r == if !address_is_loopback && checked != current {
            Some(SetKbmEmulation { enabled: checked, initialize: false })
        } else {
            None
        },
{
    if !address_is_loopback && checked != current {
        Some(SetKbmEmulation { enabled: checked, initialize: false })
    } else {
        None
    }
}

/// The "Force Config" checkbox of the Steam window: it can only be changed
/// when an app id other than 0 is known and SISR was not launched in Steam's
/// gaming mode; checking it enforces that app's profile, clearing it stops
/// enforcing.
pub fn force_config_toggle(app_id: Option<u32>, launched_in_game_mode: bool, active: bool, checked: bool) -> (r: Option<EnforcerCommand>)
    ensures
        r == match app_id {
            Some(id) => if id != 0 && !launched_in_game_mode && checked != active {
                if checked {
                    Some(EnforcerCommand::ActivateWithAppId(id))
                } else {
                    Some(EnforcerCommand::Deactivate)
                }
            } else {
                None
            },
            None => None,
        },
{
    match app_id {
        Some(id) => {
            if has_app_id(app_id) && !launched_in_game_mode && checked != active {
                if checked {
                    Some(EnforcerCommand::ActivateWithAppId(id))
                } else {
                    Some(EnforcerCommand::Deactivate)
                }
            } else {
                None
            }
        },
        None => None,
    }
}

/// The "Draw continuously" checkbox: it shows the config's setting (off when
/// unset), and a change gives the new setting to store and apply.
pub fn continuous_draw_toggle(current: Option<bool>, checked: bool) -> (r: Option<bool>)
    ensures
        r == if checked != (current == Some(true)) {
            Some(checked)
        } else {
            None
        },
{
    let shown = match current {
        Some(b) => b,
        None => false,
    };
    if checked != shown {
        Some(checked)
    } else {
        None
    }
}

/// A yes/no line of the Steam window.
pub fn yes_no(b: bool) -> (r: &'static str)
    ensures
        r@ == if b {
            "Yes"@
        } else {
            "No"@
        },
{
    if b {
        "Yes"
    } else {
        "No"
    }
}

/// The Steam overlay line of the Steam window.
pub fn open_closed(open: bool) -> (r: &'static str)
    ensures
        r@ == if open {
            "Open"@
        } else {
            "Closed"@
        },
{
    if open {
        "Open"
    } else {
        "Closed"
    }
}

} // verus!
