//! Decisions of the outputs page: which detected displays get a config
//! entry, which offered mode a saved mode selects, and what a choice of
//! mode writes back.

use vstd::prelude::*;
use vstd::string::*;
use crate::ipc::OutputMode;
use crate::pages::string_seqs;
use crate::types::{OutputConfig, OutputTransform, VrrMode};

verus! {

/// The connector names of some output entries.
pub open spec fn names_of(s: Seq<OutputConfig>) -> Seq<Seq<char>> {
    s.map_values(|o: OutputConfig| o.name@)
}

/// `o` is an entry for output `name` with every setting left default.
pub open spec fn is_fresh_output(o: OutputConfig, name: Seq<char>) -> bool {
    &&& o.name@ == name
    &&& !o.off
    &&& o.mode_width == 0
    &&& o.mode_height == 0
    &&& o.mode_refresh_mhz == 0
    &&& o.scale == 0
    &&& o.transform == OutputTransform::Normal
    &&& !o.position_set
    &&& o.position_x == 0
    &&& o.position_y == 0
    &&& o.vrr == VrrMode::Default
}

/// The detected names that get a new entry, in order: each that neither
/// the existing entries nor an earlier detected name already has.
pub open spec fn added_outputs(existing: Seq<Seq<char>>, detected: Seq<Seq<char>>) -> Seq<Seq<char>>
    decreases detected.len(),
{
    if detected.len() == 0 {
        Seq::empty()
    } else {
        let a = added_outputs(existing, detected.drop_last());
        if (existing + a).contains(detected.last()) {
            a
        } else {
            a.push(detected.last())
        }
    }
}

/// After detection every detected output has an entry: each detected name
/// is among the existing names or the added ones.
pub proof fn law_detected_outputs_have_entries(existing: Seq<Seq<char>>, detected: Seq<Seq<char>>)
    ensures
        forall|k: int|
            0 <= k < detected.len() ==> (existing + added_outputs(existing, detected)).contains(
                #[trigger] detected[k],
            ),
    decreases detected.len(),
{
    if detected.len() > 0 {
        let d = detected.drop_last();
        law_detected_outputs_have_entries(existing, d);
        let a = added_outputs(existing, d);
        let b = added_outputs(existing, detected);
        assert forall|k: int| 0 <= k < detected.len() implies (existing + b).contains(
            #[trigger] detected[k],
        ) by {
            if k < d.len() {
                assert(detected[k] == d[k]);
                assert((existing + a).contains(d[k]));
                let p = choose|p: int| 0 <= p < (existing + a).len() && (existing + a)[p] == d[k];
                assert((existing + b)[p] == d[k]);
            } else if !(existing + a).contains(detected.last()) {
                assert((existing + b)[(existing + b).len() - 1] == detected.last());
            }
        }
    }
}

fn has_output(outputs: &Vec<OutputConfig>, name: &String) -> (r: bool)
    ensures
        r == names_of(outputs@).contains(name@),
{
    let mut i: usize = 0;
    while i < outputs.len()
        invariant
            i <= outputs.len(),
            forall|j: int| 0 <= j < i ==> outputs@[j].name@ != name@,
        decreases outputs.len() - i,
    {
        if outputs[i].name == *name {
            assert(names_of(outputs@)[i as int] == name@);
            return true;
        }
        i = i + 1;
    }
    assert(!names_of(outputs@).contains(name@)) by {
        if names_of(outputs@).contains(name@) {
            let j = choose|j: int|
                0 <= j < names_of(outputs@).len() && names_of(outputs@)[j] == name@;
            assert(outputs@[j].name@ == name@);
        }
    }
    false
}

/// Gives each detected output that has no entry yet a fresh one, appended
/// in detection order (see [`added_outputs`]); existing entries stay as
/// they are.
pub fn add_detected_outputs(outputs: &mut Vec<OutputConfig>, detected: &Vec<String>)
    ensures
        final(outputs)@.len() == old(outputs)@.len() + added_outputs(
            names_of(old(outputs)@),
            string_seqs(detected@),
        ).len(),
        final(outputs)@.subrange(0, old(outputs)@.len() as int) == old(outputs)@,
        forall|j: int|
            0 <= j < final(outputs)@.len() - old(outputs)@.len() ==> #[trigger] is_fresh_output(
                final(outputs)@[old(outputs)@.len() + j],
                added_outputs(names_of(old(outputs)@), string_seqs(detected@))[j],
            ),
{
    let ghost start = outputs@;
    let ghost names = string_seqs(detected@);
    let mut i: usize = 0;
    while i < detected.len()
        invariant
            i <= detected.len(),
            names == string_seqs(detected@),
            outputs@.len() == start.len() + added_outputs(
                names_of(start),
                names.subrange(0, i as int),
            ).len(),
            outputs@.subrange(0, start.len() as int) == start,
            names_of(outputs@) == names_of(start) + added_outputs(
                names_of(start),
                names.subrange(0, i as int),
            ),
            forall|j: int|
                0 <= j < outputs@.len() - start.len() ==> #[trigger] is_fresh_output(
                    outputs@[start.len() + j],
                    added_outputs(names_of(start), names.subrange(0, i as int))[j],
                ),
        decreases detected.len() - i,
    {
        let ghost before = outputs@;
        let ghost a = added_outputs(names_of(start), names.subrange(0, i as int));
        assert(names.subrange(0, i + 1).drop_last() =~= names.subrange(0, i as int));
        assert(names[i as int] == detected@[i as int]@);
        if !has_output(outputs, &detected[i]) {
            let o = OutputConfig::new(detected[i].as_str());
            outputs.push(o);
            assert(outputs@.subrange(0, start.len() as int) =~= start);
            assert(names_of(outputs@) =~= names_of(before).push(detected@[i as int]@));
            assert forall|j: int| 0 <= j < outputs@.len() - start.len() implies #[trigger] is_fresh_output(
                outputs@[start.len() + j],
                a.push(names[i as int])[j],
            ) by {
                if j < a.len() {
                    assert(outputs@[start.len() + j] == before[start.len() + j]);
                }
            }
        }
        i = i + 1;
    }
    assert(names.subrange(0, detected.len() as int) =~= names);
}

/// Whether an offered mode is the saved `width`×`height` (at the saved
/// refresh rate, when one is saved).
pub open spec fn mode_matches(m: OutputMode, width: u32, height: u32, refresh_mhz: u32) -> bool {
    m.width == width && m.height == height && (refresh_mhz == 0 || m.refresh_rate == refresh_mhz)
}

/// The position of the first offered mode from `i` on that matches, or -1.
pub open spec fn match_from(modes: Seq<OutputMode>, width: u32, height: u32, refresh_mhz: u32, i: int) -> int
    decreases modes.len() - i,
{
    if i < 0 || i >= modes.len() {
        -1
    } else if mode_matches(modes[i], width, height, refresh_mhz) {
        i
    } else {
        match_from(modes, width, height, refresh_mhz, i + 1)
    }
}

/// The entry of the mode list (`auto` first, then the offered modes) that a
/// saved mode selects: `auto` when no mode is saved or none matches.
pub open spec fn mode_choice(modes: Seq<OutputMode>, width: u32, height: u32, refresh_mhz: u32) -> int {
    if width == 0 {
        0
    } else {
        let i = match_from(modes, width, height, refresh_mhz, 0);
        if i < 0 {
            0
        } else {
            i + 1
        }
    }
}

/// The mode list entry selected by the saved mode (see [`mode_choice`]).
pub fn selected_mode(modes: &Vec<OutputMode>, width: u32, height: u32, refresh_mhz: u32) -> (r: u32)
    requires
        modes@.len() < u32::MAX,
    ensures
        r == mode_choice(modes@, width, height, refresh_mhz),
{
    if width == 0 {
        return 0;
    }
    let mut i: usize = 0;
    while i < modes.len()
        invariant
            i <= modes.len(),
            modes@.len() < u32::MAX,
            width != 0,
            match_from(modes@, width, height, refresh_mhz, 0) == match_from(
                modes@,
                width,
                height,
                refresh_mhz,
                i as int,
            ),
        decreases modes.len() - i,
    {
        let m = modes[i];
        if m.width == width && m.height == height && (refresh_mhz == 0 || m.refresh_rate
            == refresh_mhz) {
            assert(mode_matches(modes@[i as int], width, height, refresh_mhz));
            assert(match_from(modes@, width, height, refresh_mhz, i as int) == i);
            return (i + 1) as u32;
        }
        i = i + 1;
    }
    0
}

/// Writes the choice of mode list entry `choice` into `out`: `auto` (entry
/// 0) clears the saved mode, entry `k` saves the `k`-th offered mode, and an
/// entry past the list changes nothing. Every other setting is kept.
pub fn apply_mode_choice(out: &mut OutputConfig, modes: &Vec<OutputMode>, choice: usize)
    ensures
        final(out).name == old(out).name,
        final(out).off == old(out).off,
        final(out).scale == old(out).scale,
        final(out).transform == old(out).transform,
        final(out).position_set == old(out).position_set,
        final(out).position_x == old(out).position_x,
        final(out).position_y == old(out).position_y,
        final(out).vrr == old(out).vrr,
        choice == 0 ==> final(out).mode_width == 0 && final(out).mode_height == 0
            && final(out).mode_refresh_mhz == 0,
        0 < choice <= modes@.len() ==> final(out).mode_width == modes@[choice - 1].width
            && final(out).mode_height == modes@[choice - 1].height && final(out).mode_refresh_mhz
            == modes@[choice - 1].refresh_rate,
        choice > modes@.len() ==> final(out).mode_width == old(out).mode_width
            && final(out).mode_height == old(out).mode_height && final(out).mode_refresh_mhz
            == old(out).mode_refresh_mhz,
{
    if choice == 0 {
        out.mode_width = 0;
        out.mode_height = 0;
        out.mode_refresh_mhz = 0;
    } else if choice - 1 < modes.len() {
        let m = modes[choice - 1];
        out.mode_width = m.width;
        out.mode_height = m.height;
        out.mode_refresh_mhz = m.refresh_rate;
    }
}

/// The label of an offered mode: `W×H  R Hz`, the refresh rate in hertz
/// with three decimals, and a check mark on the preferred mode.
pub open spec fn mode_label_spec(m: OutputMode) -> Seq<char> {
    crate::text::dec(m.width as nat) + "×"@ + crate::text::dec(m.height as nat) + "  "@
        + crate::generate::fixed_text(m.refresh_rate as int, 3) + " Hz"@ + (if m.is_preferred {
        " ✓"@
    } else {
        ""@
    })
}

/// The label shown for an offered mode (see [`mode_label_spec`]).
pub fn mode_label(m: &OutputMode) -> (r: String)
    ensures
        r@ == mode_label_spec(*m),
{
    let mut r = crate::text::u64_text(m.width as u64);
    r.append("×");
    let h = crate::text::u64_text(m.height as u64);
    r.append(h.as_str());
    r.append("  ");
    let f = crate::generate::fixed_string(m.refresh_rate as i64, 3);
    r.append(f.as_str());
    r.append(" Hz");
    if m.is_preferred {
        r.append(" ✓");
    }
    proof {
        reveal_strlit("");
    }
    assert(r@ =~= mode_label_spec(*m));
    r
}

/// The resolution shown on a display's block in the arrangement: `W×H`, or
/// `automatic` when the size is unknown.
pub open spec fn resolution_label_spec(width: u32, height: u32) -> Seq<char> {
    if width > 0 && height > 0 {
        crate::text::dec(width as nat) + "×"@ + crate::text::dec(height as nat)
    } else {
        "automatic"@
    }
}

/// The resolution label of a display (see [`resolution_label_spec`]).
pub fn resolution_label(width: u32, height: u32) -> (r: String)
    ensures
        r@ == resolution_label_spec(width, height),
{
    if width > 0 && height > 0 {
        let mut r = crate::text::u64_text(width as u64);
        r.append("×");
        let h = crate::text::u64_text(height as u64);
        r.append(h.as_str());
        r
    } else {
        String::from_str("automatic")
    }
}

/// `order` lists the positions of `names` sorted by name (as `str::cmp`
/// orders them), names that are equal in their original order.
pub open spec fn sorted_by_name(names: Seq<Seq<char>>, order: Seq<usize>) -> bool {
    &&& forall|k: int| 0 <= k < order.len() ==> (#[trigger] order[k] as int) < names.len()
    &&& forall|k1: int, k2: int|
        0 <= k1 < k2 < order.len() ==> !crate::keybinds::lex_lt(
            names[order[k2] as int],
            names[order[k1] as int],
        ) && (names[order[k1] as int] == names[order[k2] as int] ==> order[k1] < order[k2])
}

/// The order in which outputs are listed: their positions sorted by name
/// (see [`sorted_by_name`]), each position once.
pub fn name_order(names: &Vec<String>) -> (r: Vec<usize>)
    ensures
        r@.len() == names@.len(),
        r@.no_duplicates(),
        sorted_by_name(string_seqs(names@), r@),
{
    let ghost ns = string_seqs(names@);
    let mut cs: Vec<Vec<char>> = Vec::new();
    let mut k: usize = 0;
    while k < names.len()
        invariant
            k <= names.len(),
            ns == string_seqs(names@),
            cs@.len() == k,
            forall|m: int| 0 <= m < k ==> #[trigger] cs@[m]@ == ns[m],
        decreases names.len() - k,
    {
        cs.push(crate::text::chars_of(names[k].as_str()));
        k = k + 1;
    }
    let mut r: Vec<usize> = Vec::new();
    let mut i: usize = 0;
    while i < names.len()
        invariant
            i <= names.len(),
            ns == string_seqs(names@),
            ns.len() == names@.len(),
            cs@.len() == names@.len(),
            forall|m: int| 0 <= m < names@.len() ==> #[trigger] cs@[m]@ == ns[m],
            r@.len() == i,
            r@.no_duplicates(),
            forall|m: int| 0 <= m < r@.len() ==> (#[trigger] r@[m] as int) < i,
            sorted_by_name(ns, r@),
        decreases names.len() - i,
    {
        let mut p: usize = 0;
        while p < r.len() && !crate::keybinds::lex_less(&cs[i], &cs[r[p]])
            invariant
                p <= r@.len(),
                i < names@.len(),
                cs@.len() == names@.len(),
                forall|m: int| 0 <= m < names@.len() ==> #[trigger] cs@[m]@ == ns[m],
                forall|m: int| 0 <= m < r@.len() ==> (#[trigger] r@[m] as int) < i,
                forall|m: int| 0 <= m < p ==> !crate::keybinds::lex_lt(ns[i as int], #[trigger] ns[r@[m] as int]),
            decreases r@.len() - p,
        {
            p = p + 1;
        }
        proof {
            // Every name from `p` on is above the new one.
            assert forall|m: int| p <= m < r@.len() implies crate::keybinds::lex_lt(
                ns[i as int],
                #[trigger] ns[r@[m] as int],
            ) by {
                if m > p {
                    crate::keybinds::lemma_lex_total(ns[r@[p as int] as int], ns[r@[m] as int]);
                    if ns[r@[p as int] as int] != ns[r@[m] as int] {
                        crate::keybinds::lemma_lex_trans(ns[i as int], ns[r@[p as int] as int], ns[r@[m] as int]);
                    }
                }
            }
            // Every name before `p` is at most the new one.
            assert forall|m: int| 0 <= m < p implies !crate::keybinds::lex_lt(
                ns[i as int],
                #[trigger] ns[r@[m] as int],
            ) by {}
        }
        let ghost old_r = r@;
        r.insert(p, i);
        proof {
            assert(r@ == old_r.insert(p as int, i));
            assert forall|m: int| 0 <= m < r@.len() implies (#[trigger] r@[m] as int) < i + 1 by {
                if m < p {
                    assert(r@[m] == old_r[m]);
                } else if m > p {
                    assert(r@[m] == old_r[m - 1]);
                }
            }
            assert(r@.no_duplicates()) by {
                assert forall|m1: int, m2: int| 0 <= m1 < r@.len() && 0 <= m2 < r@.len() && m1 != m2
                    implies r@[m1] != r@[m2] by {
                    let a1 = if m1 < p { m1 } else { m1 - 1 };
                    let a2 = if m2 < p { m2 } else { m2 - 1 };
                    if m1 != p as int && m2 != p as int {
                        assert(r@[m1] == old_r[a1] && r@[m2] == old_r[a2]);
                    } else if m1 == p as int {
                        assert(r@[m2] == old_r[a2]);
                    } else {
                        assert(r@[m1] == old_r[a1]);
                    }
                }
            }
            assert forall|k1: int, k2: int| 0 <= k1 < k2 < r@.len() implies !crate::keybinds::lex_lt(
                ns[r@[k2] as int],
                ns[r@[k1] as int],
            ) && (ns[r@[k1] as int] == ns[r@[k2] as int] ==> r@[k1] < r@[k2]) by {
                let a1 = if k1 < p { k1 } else { k1 - 1 };
                let a2 = if k2 < p { k2 } else { k2 - 1 };
                if k1 != p as int && k2 != p as int {
                    assert(r@[k1] == old_r[a1] && r@[k2] == old_r[a2]);
                    assert(0 <= a1 < a2 < old_r.len());
                    assert(!crate::keybinds::lex_lt(ns[old_r[a2] as int], ns[old_r[a1] as int]) && (
                    ns[old_r[a1] as int] == ns[old_r[a2] as int] ==> old_r[a1] < old_r[a2]));
                } else if k1 == p as int {
                    assert(r@[k2] == old_r[a2]);
                    assert(a2 >= p);
                    assert(crate::keybinds::lex_lt(ns[i as int], ns[old_r[a2] as int]));
                    crate::keybinds::lemma_lex_total(ns[i as int], ns[old_r[a2] as int]);
                    crate::keybinds::lemma_lex_irreflexive(ns[i as int]);
                } else {
                    assert(r@[k1] == old_r[a1]);
                    assert(a1 < p);
                    assert(r@[k2] == i);
                    assert(!crate::keybinds::lex_lt(ns[i as int], ns[old_r[a1] as int]));
                    assert((old_r[a1] as int) < i);
                }
            }
        }
        i = i + 1;
    }
    r
}

} // verus!
