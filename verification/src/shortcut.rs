//! Global shortcuts written as text, such as `Ctrl+Shift+K`: modifiers and one key,
//! joined by `+`.

use vstd::prelude::*;
use vstd::string::*;
use crate::manifest::strings_view;
use crate::text::lowercase_of;
use crate::text::str_eq;
use crate::text::to_lowercase;
use crate::text::to_uppercase;
use crate::text::uppercase_of;

verus! {

/// The modifier keys of a shortcut.
#[derive(Debug, Clone, Copy)]
pub struct Modifiers {
    pub ctrl: bool,
    pub alt: bool,
    pub shift: bool,
    pub meta: bool,
}

/// The keys a shortcut can be bound to.
#[derive(Debug, Clone, Copy)]
pub enum KeyCode {
    Space,
    /// A letter key, `A` to `Z`.
    Letter(char),
    /// A digit key, `0` to `9`.
    Digit(u8),
    /// A function key, `F1` to `F12`.
    Function(u8),
}

/// A parsed shortcut: its modifiers and its key.
#[derive(Debug, Clone, Copy)]
pub struct Shortcut {
    pub modifiers: Modifiers,
    pub key: KeyCode,
}

/// The parts of `s` between the `+` signs (one part more than there are signs).
pub open spec fn split_plus(s: Seq<char>) -> Seq<Seq<char>>
    decreases s.len(),
{
    if s.len() == 0 {
        seq![Seq::empty()]
    } else {
        let r = split_plus(s.drop_last());
        if s.last() == '+' {
            r.push(Seq::empty())
        } else {
            r.update(r.len() - 1, r.last().push(s.last()))
        }
    }
}

/// A character's code point.
pub open spec fn code(c: char) -> int {
    c as int
}

/// The key named by an upper-case key name: `SPACE`, a letter, a digit, or `F1` to
/// `F12`.
pub open spec fn key_code(u: Seq<char>) -> Option<KeyCode> {
    if u == "SPACE"@ {
        Some(KeyCode::Space)
    } else if u.len() == 1 && code('A') <= code(u[0]) <= code('Z') {
        Some(KeyCode::Letter(u[0]))
    } else if u.len() == 1 && code('0') <= code(u[0]) <= code('9') {
        Some(KeyCode::Digit((code(u[0]) - code('0')) as u8))
    } else if u.len() == 2 && u[0] == 'F' && code('1') <= code(u[1]) <= code('9') {
        Some(KeyCode::Function((code(u[1]) - code('0')) as u8))
    } else if u.len() == 3 && u[0] == 'F' && u[1] == '1' && code('0') <= code(u[2]) <= code('2') {
        Some(KeyCode::Function((10 + code(u[2]) - code('0')) as u8))
    } else {
        None
    }
}

/// No modifier.
pub open spec fn no_modifiers() -> Modifiers {
    Modifiers { ctrl: false, alt: false, shift: false, meta: false }
}

/// Reads one part: a modifier name (any case) adds that modifier; anything else is
/// the key, by its upper-case name, replacing any key before it (an unknown name
/// leaves no key).
pub open spec fn read_part(acc: (Modifiers, Option<KeyCode>), part: Seq<char>) -> (Modifiers, Option<KeyCode>) {
    let l = lowercase_of(part);
    if l == "ctrl"@ {
        (Modifiers { ctrl: true, ..acc.0 }, acc.1)
    } else if l == "alt"@ {
        (Modifiers { alt: true, ..acc.0 }, acc.1)
    } else if l == "shift"@ {
        (Modifiers { shift: true, ..acc.0 }, acc.1)
    } else if l == "meta"@ {
        (Modifiers { meta: true, ..acc.0 }, acc.1)
    } else {
        (acc.0, key_code(uppercase_of(l)))
    }
}

/// Reads the parts in order.
pub open spec fn read_parts(parts: Seq<Seq<char>>) -> (Modifiers, Option<KeyCode>)
    decreases parts.len(),
{
    if parts.len() == 0 {
        (no_modifiers(), None)
    } else {
        read_part(read_parts(parts.drop_last()), parts.last())
    }
}

/// The message for a shortcut without a (known) key.
pub open spec fn no_key_message() -> Seq<char> {
    "No key specified in shortcut"@
}

/// `split_plus` always has a part.
proof fn lemma_split_nonempty(s: Seq<char>)
    ensures
        split_plus(s).len() >= 1,
    decreases s.len(),
{
    if s.len() > 0 {
        lemma_split_nonempty(s.drop_last());
    }
}

/// Splits `s` at each `+`.
pub fn split_on_plus(s: &str) -> (parts: Vec<String>)
    ensures
        strings_view(parts@) == split_plus(s@),
{
    let n = s.unicode_len();
    let mut done: Vec<String> = Vec::new();
    let mut start: usize = 0;
    let mut i: usize = 0;
    proof {
        assert(s@.take(0) =~= Seq::<char>::empty());
    }
    while i < n
        invariant
            n == s@.len(),
            start <= i <= n,
            split_plus(s@.take(i as int)) == strings_view(done@).push(s@.subrange(start as int, i as int)),
        decreases n - i,
    {
        let c = s.get_char(i);
        proof {
            let t = s@.take(i + 1);
            assert(t.drop_last() =~= s@.take(i as int));
            assert(t.last() == c);
            lemma_split_nonempty(s@.take(i as int));
        }
        if c == '+' {
            let part = s.substring_char(start, i).to_string();
            let ghost before = strings_view(done@);
            done.push(part);
            assert(strings_view(done@) =~= before.push(s@.subrange(start as int, i as int)));
            start = i + 1;
            assert(s@.subrange(start as int, i + 1) =~= Seq::<char>::empty());
        } else {
            proof {
                let before = strings_view(done@);
                let seg = s@.subrange(start as int, i as int);
                assert(seg.push(c) =~= s@.subrange(start as int, i + 1));
                assert(before.push(seg).update(before.len() as int, seg.push(c)) =~= before.push(seg.push(c)));
            }
        }
        i = i + 1;
    }
    let last = s.substring_char(start, n).to_string();
    let ghost before = strings_view(done@);
    done.push(last);
    assert(strings_view(done@) =~= before.push(s@.subrange(start as int, n as int)));
    assert(s@.take(n as int) =~= s@);
    done
}

/// The key named by an upper-case key name, if it is one.
pub fn key_code_of(u: &str) -> (r: Option<KeyCode>)
    ensures
        r == key_code(u@),
{
    proof {
        reveal_strlit("SPACE");
    }
    if str_eq(u, "SPACE") {
        return Some(KeyCode::Space);
    }
    let n = u.unicode_len();
    if n == 1 {
        let c = u.get_char(0);
        if 'A' <= c && c <= 'Z' {
            assert(u@ != "SPACE"@);
            return Some(KeyCode::Letter(c));
        }
        if '0' <= c && c <= '9' {
            assert(u@ != "SPACE"@);
            return Some(KeyCode::Digit(((c as u32) - ('0' as u32)) as u8));
        }
        return None;
    }
    if n == 2 {
        let c0 = u.get_char(0);
        let c1 = u.get_char(1);
        if c0 == 'F' && '1' <= c1 && c1 <= '9' {
            assert(u@ != "SPACE"@);
            return Some(KeyCode::Function(((c1 as u32) - ('0' as u32)) as u8));
        }
        return None;
    }
    if n == 3 {
        let c0 = u.get_char(0);
        let c1 = u.get_char(1);
        let c2 = u.get_char(2);
        if c0 == 'F' && c1 == '1' && '0' <= c2 && c2 <= '2' {
            assert(u@ != "SPACE"@);
            return Some(KeyCode::Function((10 + (c2 as u32) - ('0' as u32)) as u8));
        }
        return None;
    }
    None
}

/// Parses a shortcut such as `Ctrl+Shift+K`: the parts between `+` signs are read
/// in order; `ctrl`, `alt`, `shift` and `meta` (in any case) add modifiers, and any
/// other part names the key (`SPACE`, `A`–`Z`, `0`–`9`, `F1`–`F12`, in any case),
/// the last such part deciding. Without a known key the shortcut is refused.
pub fn parse_shortcut(shortcut_str: &str) -> (r: Result<Shortcut, String>)
    ensures
        match read_parts(split_plus(shortcut_str@)) {
            (m, Some(k)) => r matches Ok(sc) && sc.modifiers == m && sc.key == k,
            (_, None) => r matches Err(e) && e@ == no_key_message(),
        },
{
    let parts = split_on_plus(shortcut_str);
    let ghost ps = strings_view(parts@);
    let mut modifiers = Modifiers { ctrl: false, alt: false, shift: false, meta: false };
    let mut key: Option<KeyCode> = None;
    let mut i: usize = 0;
    proof {
        assert(ps.take(0) =~= Seq::<Seq<char>>::empty());
    }
    while i < parts.len()
        invariant
            ps == strings_view(parts@),
            i <= parts@.len(),
            read_parts(ps.take(i as int)) == (modifiers, key),
        decreases parts.len() - i,
    {
        proof {
            let t = ps.take(i + 1);
            assert(t.drop_last() =~= ps.take(i as int));
            assert(t.last() == ps[i as int]);
        }
        let low = to_lowercase(parts[i].as_str());
        if str_eq(low.as_str(), "ctrl") {
            modifiers.ctrl = true;
        } else if str_eq(low.as_str(), "alt") {
            modifiers.alt = true;
        } else if str_eq(low.as_str(), "shift") {
            modifiers.shift = true;
        } else if str_eq(low.as_str(), "meta") {
            modifiers.meta = true;
        } else {
            let up = to_uppercase(low.as_str());
            key = key_code_of(up.as_str());
        }
        i = i + 1;
    }
    assert(ps.take(parts.len() as int) =~= ps);
    match key {
        Some(k) => Ok(Shortcut { modifiers, key: k }),
        None => Err(String::from_str("No key specified in shortcut")),
    }
}

} // verus!

verus! {

/// A part that names a modifier, once lower-cased.
pub open spec fn names_modifier(l: Seq<char>) -> bool {
    l == "ctrl"@ || l == "alt"@ || l == "shift"@ || l == "meta"@
}

/// Some part of `parts` lower-cases to `name`.
pub open spec fn some_part_is(parts: Seq<Seq<char>>, name: Seq<char>) -> bool {
    exists|i: int| 0 <= i < parts.len() && #[trigger] lowercase_of(parts[i]) == name
}

proof fn lemma_modifier_names_differ()
    ensures
        "ctrl"@ != "alt"@,
        "ctrl"@ != "shift"@,
        "ctrl"@ != "meta"@,
        "alt"@ != "shift"@,
        "alt"@ != "meta"@,
        "shift"@ != "meta"@,
{
    reveal_strlit("ctrl");
    reveal_strlit("alt");
    reveal_strlit("shift");
    reveal_strlit("meta");
    assert("ctrl"@[0] != "alt"@[0]);
    assert("ctrl"@[0] != "shift"@[0]);
    assert("ctrl"@[0] != "meta"@[0]);
    assert("alt"@[0] != "shift"@[0]);
    assert("alt"@[0] != "meta"@[0]);
    assert("shift"@[0] != "meta"@[0]);
}

/// Each modifier of a parsed shortcut is on exactly when some part names it (in
/// any case): `ctrl`, `alt`, `shift` and `meta` each set their own modifier and no
/// other.
pub proof fn law_modifiers_named(parts: Seq<Seq<char>>)
    ensures
        read_parts(parts).0.ctrl <==> some_part_is(parts, "ctrl"@),
        read_parts(parts).0.alt <==> some_part_is(parts, "alt"@),
        read_parts(parts).0.shift <==> some_part_is(parts, "shift"@),
        read_parts(parts).0.meta <==> some_part_is(parts, "meta"@),
    decreases parts.len(),
{
    lemma_modifier_names_differ();
    if parts.len() > 0 {
        let d = parts.drop_last();
        law_modifiers_named(d);
        let names = seq!["ctrl"@, "alt"@, "shift"@, "meta"@];
        assert forall|k: int| 0 <= k < 4 implies (some_part_is(parts, #[trigger] names[k]) <==> (some_part_is(
            d,
            names[k],
        ) || lowercase_of(parts.last()) == names[k])) by {
            if some_part_is(parts, names[k]) {
                let i = choose|i: int| 0 <= i < parts.len() && #[trigger] lowercase_of(parts[i]) == names[k];
                if i < d.len() {
                    assert(d[i] == parts[i]);
                }
            }
            if some_part_is(d, names[k]) {
                let i = choose|i: int| 0 <= i < d.len() && #[trigger] lowercase_of(d[i]) == names[k];
                assert(parts[i] == d[i]);
            }
            if lowercase_of(parts.last()) == names[k] {
                assert(lowercase_of(parts[parts.len() - 1]) == names[k]);
            }
        }
        assert(names[0] == "ctrl"@);
        assert(names[1] == "alt"@);
        assert(names[2] == "shift"@);
        assert(names[3] == "meta"@);
    }
}

/// The key of a parsed shortcut comes from the last part that names no modifier
/// (read in upper case); with no such part there is no key.
pub proof fn law_key_from_last_key_part(parts: Seq<Seq<char>>)
    ensures
        (forall|i: int| 0 <= i < parts.len() ==> names_modifier(#[trigger] lowercase_of(parts[i])))
            ==> read_parts(parts).1 is None,
        forall|j: int|
            0 <= j < parts.len() && !names_modifier(#[trigger] lowercase_of(parts[j])) && (forall|i: int|
                j < i < parts.len() ==> names_modifier(#[trigger] lowercase_of(parts[i]))) ==> read_parts(parts).1
                == key_code(uppercase_of(lowercase_of(parts[j]))),
    decreases parts.len(),
{
    if parts.len() > 0 {
        let d = parts.drop_last();
        law_key_from_last_key_part(d);
        let last = parts.len() - 1;
        assert(parts.last() == parts[last]);
        if forall|i: int| 0 <= i < parts.len() ==> names_modifier(#[trigger] lowercase_of(parts[i])) {
            assert forall|i: int| 0 <= i < d.len() implies names_modifier(#[trigger] lowercase_of(d[i])) by {
                assert(d[i] == parts[i]);
                assert(names_modifier(lowercase_of(parts[i])));
            }
            assert(names_modifier(lowercase_of(parts[last])));
        }
        assert forall|j: int|
            0 <= j < parts.len() && !names_modifier(#[trigger] lowercase_of(parts[j])) && (forall|i: int|
                j < i < parts.len() ==> names_modifier(#[trigger] lowercase_of(parts[i]))) implies read_parts(parts).1
            == key_code(uppercase_of(lowercase_of(parts[j]))) by {
            if j < last {
                assert(names_modifier(lowercase_of(parts[last])));
                assert(d[j] == parts[j]);
                assert forall|i: int| j < i < d.len() implies names_modifier(#[trigger] lowercase_of(d[i])) by {
                    assert(d[i] == parts[i]);
                    assert(names_modifier(lowercase_of(parts[i])));
                }
            }
        }
    }
}

} // verus!
