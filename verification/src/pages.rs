//! Decisions of the settings window that need no widgets: which page the
//! command line asks for, and the key combination a captured key press
//! records.

use vstd::prelude::*;
use vstd::string::*;
use crate::keybinds::join_plus;

verus! {

/// The page asked for by the arguments from position `i` on: the word after
/// the first `--page` (or `keybindings` when it is the last argument), or
/// the rest of the first `--page=…`; `keybindings` when there is neither.
pub open spec fn page_from(args: Seq<Seq<char>>, i: int) -> Seq<char>
    decreases args.len() - i,
{
    let flag = "--page="@;
    if i < 0 || i >= args.len() {
        "keybindings"@
    } else if args[i] == "--page"@ {
        if i + 1 < args.len() {
            args[i + 1]
        } else {
            "keybindings"@
        }
    } else if flag.len() <= args[i].len() && args[i].subrange(0, flag.len() as int) == flag {
        args[i].subrange(flag.len() as int, args[i].len() as int)
    } else {
        page_from(args, i + 1)
    }
}

pub open spec fn string_seqs(v: Seq<String>) -> Seq<Seq<char>> {
    v.map_values(|s: String| s@)
}

/// The page named on the command line (the arguments after the program
/// name), as [`page_from`] reads them.
pub fn requested_page(args: &Vec<String>) -> (r: String)
    ensures
        r@ == page_from(string_seqs(args@), 0),
{
    let ghost av = string_seqs(args@);
    let mut i: usize = 0;
    while i < args.len()
        invariant
            i <= args.len(),
            av == string_seqs(args@),
            page_from(av, 0) == page_from(av, i as int),
        decreases args.len() - i,
    {
        let a = crate::text::chars_of(args[i].as_str());
        assert(av[i as int] == args@[i as int]@);
        if crate::text::str_is(&a, "--page") {
            if i + 1 < args.len() {
                assert(av[i + 1] == args@[i + 1]@);
                return args[i + 1].clone();
            }
            return String::from_str("keybindings");
        }
        if crate::text::starts_with(&a, "--page=") {
            let p = crate::text::chars_of("--page=");
            let rest = crate::text::slice(&a, p.len(), a.len());
            return crate::text::string_of(&rest);
        }
        i = i + 1;
    }
    String::from_str("keybindings")
}

/// What `str::to_uppercase` returns for a text.
pub uninterp spec fn unicode_uppercase(s: Seq<char>) -> Seq<char>;

/// `str::to_uppercase`. Claimed: the result is the function of the text
/// named [`unicode_uppercase`]; nothing more is stated of it.
#[verifier::external_body]
fn to_uppercase(s: &str) -> (r: String)
    ensures
        r@ == unicode_uppercase(s@),
{
    s.to_uppercase()
}

/// The names of the modifier keys themselves, which record nothing.
pub open spec fn is_modifier_key(name: Seq<char>) -> bool {
    name == "Shift_L"@ || name == "Shift_R"@ || name == "Control_L"@ || name == "Control_R"@
        || name == "Alt_L"@ || name == "Alt_R"@ || name == "Super_L"@ || name == "Super_R"@ || name
        == "Meta_L"@ || name == "Meta_R"@
}

/// The combination a key press records: `None` for a bare modifier key;
/// otherwise the held modifiers in the order `Super` (Super or Meta held),
/// `Ctrl`, `Alt`, `Shift`, then the key name, upper-cased when it is a
/// single character, joined with `+`.
pub open spec fn combo_of(
    name: Seq<char>,
    super_or_meta: bool,
    ctrl: bool,
    alt: bool,
    shift: bool,
) -> Option<Seq<char>> {
    if is_modifier_key(name) {
        None
    } else {
        let key = if name.len() == 1 {
            unicode_uppercase(name)
        } else {
            name
        };
        let mods = Seq::empty() + (if super_or_meta {
            seq!["Super"@]
        } else {
            Seq::empty()
        }) + (if ctrl {
            seq!["Ctrl"@]
        } else {
            Seq::empty()
        }) + (if alt {
            seq!["Alt"@]
        } else {
            Seq::empty()
        }) + (if shift {
            seq!["Shift"@]
        } else {
            Seq::empty()
        });
        Some(join_plus(mods.push(key)))
    }
}

fn push_word(parts: &mut Vec<Vec<char>>, c: bool, w: &str)
    ensures
        crate::keybinds::views(final(parts)@) == crate::keybinds::views(old(parts)@) + (if c {
            seq![w@]
        } else {
            Seq::empty()
        }),
{
    if c {
        let v = crate::text::chars_of(w);
        parts.push(v);
    }
    assert(crate::keybinds::views(parts@) =~= crate::keybinds::views(old(parts)@) + (if c {
        seq![w@]
    } else {
        Seq::empty()
    }));
}

/// The combination recorded for a key press (see [`combo_of`]); the
/// modifier flags say which modifier masks were held.
pub fn recorded_combo(
    raw_name: &str,
    super_or_meta: bool,
    ctrl: bool,
    alt: bool,
    shift: bool,
) -> (r: Option<String>)
    ensures
        match combo_of(raw_name@, super_or_meta, ctrl, alt, shift) {
            Some(t) => r matches Some(s) && s@ == t,
            None => r is None,
        },
{
    let n = crate::text::chars_of(raw_name);
    let is = |lit: &str| -> (b: bool)
        ensures
            b == (n@ == lit@),
        { crate::text::str_is(&n, lit) };
    if is("Shift_L") || is("Shift_R") || is("Control_L") || is("Control_R") || is("Alt_L") || is(
        "Alt_R",
    ) || is("Super_L") || is("Super_R") || is("Meta_L") || is("Meta_R") {
        return None;
    }
    let mut parts: Vec<Vec<char>> = Vec::new();
    assert(crate::keybinds::views(parts@) =~= Seq::<Seq<char>>::empty());
    push_word(&mut parts, super_or_meta, "Super");
    push_word(&mut parts, ctrl, "Ctrl");
    push_word(&mut parts, alt, "Alt");
    push_word(&mut parts, shift, "Shift");
    let key = if n.len() == 1 {
        let u = to_uppercase(raw_name);
        crate::text::chars_of(u.as_str())
    } else {
        n
    };
    let ghost before = crate::keybinds::views(parts@);
    parts.push(key);
    assert(crate::keybinds::views(parts@) =~= before.push(key@));
    let joined = crate::keybinds::join_plus_words(&parts);
    Some(crate::text::string_of(&joined))
}

/// What a whole-number entry field holds: `0` when it is blank, else the
/// trimmed text read as a `u32`; `None` (the field is marked invalid and the
/// stored value kept) when that text is no `u32`.
pub open spec fn entry_u32_spec(text: Seq<char>) -> Option<u32> {
    let t = crate::text::trim(text);
    if t.len() == 0 {
        Some(0u32)
    } else {
        crate::text::parse_u32_spec(t)
    }
}

/// Reads a whole-number entry field (see [`entry_u32_spec`]).
pub fn entry_u32(text: &str) -> (r: Option<u32>)
    ensures
        r == entry_u32_spec(text@),
{
    let t = crate::text::trim_chars(&crate::text::chars_of(text));
    if t.len() == 0 {
        Some(0)
    } else {
        crate::text::parse_u32(&t)
    }
}

/// `str::parse::<i32>`: an optional sign, then ASCII digits whose value
/// lies in the `i32` range.
pub open spec fn parse_i32_spec(t: Seq<char>) -> Option<i32> {
    let neg = t.len() > 0 && t[0] == '-';
    let body = if t.len() > 0 && (t[0] == '-' || t[0] == '+') {
        t.drop_first()
    } else {
        t
    };
    if body.len() > 0 && body[0] == '+' {
        None
    } else {
        match crate::text::parse_u32_spec(body) {
            Some(u) => {
                let v: int = if neg {
                    -(u as int)
                } else {
                    u as int
                };
                if i32::MIN <= v <= i32::MAX {
                    Some(v as i32)
                } else {
                    None
                }
            },
            None => None,
        }
    }
}

/// What a signed whole-number entry field holds: `0` when blank, else the
/// trimmed text read as an `i32`; `None` when that text is no `i32`.
pub open spec fn entry_i32_spec(text: Seq<char>) -> Option<i32> {
    let t = crate::text::trim(text);
    if t.len() == 0 {
        Some(0i32)
    } else {
        parse_i32_spec(t)
    }
}

/// Reads a signed whole-number entry field (see [`entry_i32_spec`]).
pub fn entry_i32(text: &str) -> (r: Option<i32>)
    ensures
        r == entry_i32_spec(text@),
{
    let t = crate::text::trim_chars(&crate::text::chars_of(text));
    if t.len() == 0 {
        return Some(0);
    }
    let neg = t[0] == '-';
    let body = if t[0] == '-' || t[0] == '+' {
        crate::text::slice(&t, 1, t.len())
    } else {
        crate::text::slice(&t, 0, t.len())
    };
    assert(t@.drop_first() =~= t@.subrange(1, t@.len() as int));
    assert(t@ =~= t@.subrange(0, t@.len() as int));
    if body.len() > 0 && body[0] == '+' {
        return None;
    }
    match crate::text::parse_u32(&body) {
        Some(u) => {
            if neg {
                if u <= 2147483648 {
                    Some((0i64 - u as i64) as i32)
                } else {
                    None
                }
            } else if u <= 2147483647 {
                Some(u as i32)
            } else {
                None
            }
        },
        None => None,
    }
}

/// What a decimal entry field holds, in units of `10^-scale`: `0` when
/// blank, else the trimmed text read as a decimal number, rounded half away
/// from zero; `None` when that text is no such number.
pub open spec fn entry_fixed_spec(text: Seq<char>, scale: nat) -> Option<i64> {
    let t = crate::text::trim(text);
    if t.len() == 0 {
        Some(0i64)
    } else {
        crate::text::decimal_fixed(t, scale)
    }
}

/// Reads a decimal entry field (see [`entry_fixed_spec`]).
pub fn entry_fixed(text: &str, scale: u32) -> (r: Option<i64>)
    requires
        scale <= 3,
    ensures
        r == entry_fixed_spec(text@, scale as nat),
{
    let t = crate::text::trim_chars(&crate::text::chars_of(text));
    if t.len() == 0 {
        Some(0)
    } else {
        crate::text::parse_fixed(&t, scale)
    }
}

/// The label of an overview zoom held in hundredths: `default` when it is
/// not positive, else the percentage.
pub open spec fn zoom_label_spec(hundredths: i64) -> Seq<char> {
    if hundredths <= 0 {
        "default"@
    } else {
        crate::text::dec(hundredths as nat) + "%"@
    }
}

/// The label shown beside the overview zoom (see [`zoom_label_spec`]).
pub fn zoom_label(hundredths: i64) -> (r: String)
    ensures
        r@ == zoom_label_spec(hundredths),
{
    if hundredths <= 0 {
        return String::from_str("default");
    }
    let mut r = crate::text::u64_text(hundredths as u64);
    r.append("%");
    r
}

/// The argument vector typed into a command field: its whitespace-separated
/// words.
pub fn argv_of(text: &str) -> (r: Vec<String>)
    ensures
        string_seqs(r@) == crate::keybinds::words_from(text@, 0),
{
    let ws = crate::keybinds::split_words(&crate::text::chars_of(text));
    let mut r: Vec<String> = Vec::new();
    let mut i: usize = 0;
    while i < ws.len()
        invariant
            i <= ws.len(),
            string_seqs(r@) == crate::keybinds::views(ws@).subrange(0, i as int),
        decreases ws.len() - i,
    {
        let w = crate::text::string_of(&ws[i]);
        let ghost before = string_seqs(r@);
        r.push(w);
        assert(string_seqs(r@) =~= before.push(w@));
        assert(crate::keybinds::views(ws@).subrange(0, i + 1) =~= crate::keybinds::views(
            ws@,
        ).subrange(0, i as int).push(ws@[i as int]@));
        i = i + 1;
    }
    assert(crate::keybinds::views(ws@).subrange(0, i as int) =~= crate::keybinds::views(ws@));
    r
}

/// The text shown for an argument vector: its words joined with spaces.
pub fn argv_line(argv: &Vec<String>) -> (r: String)
    ensures
        r@ == crate::keybinds::join_space(string_seqs(argv@)),
{
    let mut ws: Vec<Vec<char>> = Vec::new();
    let mut i: usize = 0;
    while i < argv.len()
        invariant
            i <= argv.len(),
            crate::keybinds::views(ws@) == string_seqs(argv@).subrange(0, i as int),
        decreases argv.len() - i,
    {
        let w = crate::text::chars_of(argv[i].as_str());
        let ghost before = crate::keybinds::views(ws@);
        ws.push(w);
        assert(crate::keybinds::views(ws@) =~= before.push(w@));
        assert(string_seqs(argv@).subrange(0, i + 1) =~= string_seqs(argv@).subrange(0, i as int).push(
            argv@[i as int]@,
        ));
        i = i + 1;
    }
    assert(string_seqs(argv@).subrange(0, i as int) =~= string_seqs(argv@));
    crate::text::string_of(&crate::keybinds::join_words(&ws))
}

/// The modifier keys themselves.
pub open spec fn modifier_key_name(name: Seq<char>) -> bool {
    name =~= "Shift_L"@ || name =~= "Shift_R"@ || name =~= "Control_L"@ || name =~= "Control_R"@
        || name =~= "Alt_L"@ || name =~= "Alt_R"@ || name =~= "Super_L"@ || name =~= "Super_R"@
        || name =~= "Meta_L"@ || name =~= "Meta_R"@
}

/// A press of a modifier key itself records no combination, whatever
/// modifiers are held.
pub proof fn law_modifier_presses_record_nothing(
    name: Seq<char>,
    super_or_meta: bool,
    ctrl: bool,
    alt: bool,
    shift: bool,
)
    requires
        modifier_key_name(name),
    ensures
        combo_of(name, super_or_meta, ctrl, alt, shift) is None,
{
}

/// Any other key press records a combination that ends with the key (its
/// name, upper-cased when it is a single character) and that starts with
/// `Super+` exactly when Super or Meta is held.
pub proof fn law_key_presses_record_the_key(
    name: Seq<char>,
    super_or_meta: bool,
    ctrl: bool,
    alt: bool,
    shift: bool,
)
    requires
        !modifier_key_name(name),
        name.len() > 1,
    ensures
        combo_of(name, super_or_meta, ctrl, alt, shift) matches Some(t) && t.len() >= name.len()
            && t.subrange(t.len() - name.len(), t.len() as int) == name,
{
    let mods = Seq::empty() + (if super_or_meta {
        seq!["Super"@]
    } else {
        Seq::empty()
    }) + (if ctrl {
        seq!["Ctrl"@]
    } else {
        Seq::empty()
    }) + (if alt {
        seq!["Alt"@]
    } else {
        Seq::empty()
    }) + (if shift {
        seq!["Shift"@]
    } else {
        Seq::empty()
    });
    let ws = mods.push(name);
    assert(!is_modifier_key(name));
    let t = join_plus(ws);
    if ws.len() == 1 {
        assert(t == name);
        assert(t.subrange(0, t.len() as int) =~= t);
    } else {
        assert(ws.drop_last() == mods);
        assert(t == join_plus(mods) + seq!['+'] + name);
        assert(t.subrange(t.len() - name.len(), t.len() as int) =~= name);
    }
}

} // verus!
