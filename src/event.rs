//! Decoding of "properties changed" bus signals into link events.
//!
//! A link's object path ends in a bus label: the decimal interface index with
//! every byte that is not an ASCII letter or digit (and a leading digit) written
//! as `_` followed by two hex digits, e.g. index 2 is `_32`.
use vstd::prelude::*;
use crate::state::{LinkState, parse_state, parse_state_spec};
use crate::text::str_eq;

verus! {

/// The value of a changed property, as far as decoding needs to know it.
#[derive(Clone, Debug)]
pub enum PropValue {
    Text(String),
    Other,
}

/// One entry of the changed-properties set of a signal.
#[derive(Clone, Debug)]
pub struct Property {
    pub name: String,
    pub value: PropValue,
}

/// A "properties changed" signal: the emitting object's path, the interface
/// whose properties changed, and the changed properties in bus order.
#[derive(Clone, Debug)]
pub struct Signal {
    pub path: String,
    pub interface: String,
    pub changed: Vec<Property>,
}

/// A state change of the link with kernel index `index`.
#[derive(Clone, Copy, Debug, PartialEq, Eq, Structural)]
pub struct LinkEvent {
    pub index: u32,
    pub state: LinkState,
}

/// Why a signal is not dispatched on.
#[derive(Clone, Copy, Debug, PartialEq, Eq, Structural)]
pub enum DecodeError {
    /// No state transition in the signal.
    Unrelated,
    /// A state value that no `LinkState` names.
    UnknownState,
    /// A bad object path, a missing index, or a state of the wrong type.
    Malformed,
}

pub open spec fn link_interface() -> Seq<char> {
    "org.freedesktop.network1.Link"@
}

pub open spec fn link_path_prefix() -> Seq<char> {
    "/org/freedesktop/network1/link/"@
}

pub open spec fn is_state_property(name: Seq<char>) -> bool {
    name == "OperationalState"@ || name == "AdministrativeState"@
}

/// The value of a hex digit, either case.
pub open spec fn hex_value(c: char) -> Option<u8> {
    if '0' <= c && c <= '9' {
        Some((c as u32 - '0' as u32) as u8)
    } else if 'a' <= c && c <= 'f' {
        Some((c as u32 - 'a' as u32 + 10) as u8)
    } else if 'A' <= c && c <= 'F' {
        Some((c as u32 - 'A' as u32 + 10) as u8)
    } else {
        None
    }
}

pub open spec fn is_ascii_alnum(c: char) -> bool {
    ('0' <= c && c <= '9') || ('a' <= c && c <= 'z') || ('A' <= c && c <= 'Z')
}

/// The bytes that a bus label stands for, or `None` where it is not a label.
pub open spec fn unescape_label(s: Seq<char>) -> Option<Seq<u8>>
    decreases s.len(),
{
    if s.len() == 0 {
        Some(Seq::empty())
    } else if s[0] == '_' {
        if s.len() < 3 {
            None
        } else {
            match (hex_value(s[1]), hex_value(s[2]), unescape_label(s.subrange(3, s.len() as int))) {
                (Some(h), Some(l), Some(rest)) => Some(seq![(h * 16 + l) as u8] + rest),
                _ => None,
            }
        }
    } else if is_ascii_alnum(s[0]) {
        match unescape_label(s.subrange(1, s.len() as int)) {
            Some(rest) => Some(seq![s[0] as u8] + rest),
            None => None,
        }
    } else {
        None
    }
}

pub open spec fn all_digits(d: Seq<u8>) -> bool {
    forall|k: int| 0 <= k < d.len() ==> 48 <= #[trigger] d[k] <= 57
}

/// The number that a sequence of ASCII decimal digits writes.
pub open spec fn decimal(d: Seq<u8>) -> nat
    decreases d.len(),
{
    if d.len() == 0 {
        0
    } else {
        decimal(d.drop_last()) * 10 + (d.last() - 48) as nat
    }
}

/// The interface index that a link object path names.
pub open spec fn path_index(p: Seq<char>) -> Option<u32> {
    let n = link_path_prefix().len();
    if p.len() <= n || p.subrange(0, n as int) != link_path_prefix() {
        None
    } else {
        match unescape_label(p.subrange(n as int, p.len() as int)) {
            Some(d) => if d.len() > 0 && all_digits(d) && decimal(d) <= u32::MAX {
                Some(decimal(d) as u32)
            } else {
                None
            },
            None => None,
        }
    }
}

/// The position of the first state property at or after `i`.
pub open spec fn state_property_from(props: Seq<Property>, i: int) -> Option<int>
    decreases props.len() - i,
{
    if i < 0 || i >= props.len() {
        None
    } else if is_state_property(props[i].name@) {
        Some(i)
    } else {
        state_property_from(props, i + 1)
    }
}

/// What a signal decodes to.
pub open spec fn decode_spec(sig: Signal) -> Result<LinkEvent, DecodeError> {
    if sig.interface@ != link_interface() {
        Err(DecodeError::Unrelated)
    } else {
        match state_property_from(sig.changed@, 0) {
            None => Err(DecodeError::Unrelated),
            Some(k) => match sig.changed@[k].value {
                PropValue::Other => Err(DecodeError::Malformed),
                PropValue::Text(v) => match path_index(sig.path@) {
                    None => Err(DecodeError::Malformed),
                    Some(index) => match parse_state_spec(v@) {
                        None => Err(DecodeError::UnknownState),
                        Some(state) => Ok(LinkEvent { index, state }),
                    },
                },
            },
        }
    }
}

/// Every signal decodes to an event or to one of the three rejections.
pub proof fn lemma_decode_total(sig: Signal)
    ensures
        decode_spec(sig) is Ok || decode_spec(sig) == Err::<LinkEvent, DecodeError>(
            DecodeError::Unrelated,
        ) || decode_spec(sig) == Err::<LinkEvent, DecodeError>(DecodeError::UnknownState)
            || decode_spec(sig) == Err::<LinkEvent, DecodeError>(DecodeError::Malformed),
        decode_spec(sig) matches Ok(ev) ==> path_index(sig.path@) == Some(ev.index),
{
}

fn hex_digit(c: char) -> (r: Option<u8>)
    ensures
        r == hex_value(c),
{
    if '0' <= c && c <= '9' {
        Some((c as u32 - '0' as u32) as u8)
    } else if 'a' <= c && c <= 'f' {
        Some((c as u32 - 'a' as u32 + 10) as u8)
    } else if 'A' <= c && c <= 'F' {
        Some((c as u32 - 'A' as u32 + 10) as u8)
    } else {
        None
    }
}

proof fn lemma_unescape_step(s: Seq<char>, i: int, j: int)
    requires
        0 <= i < j <= s.len(),
    ensures
        s.subrange(i, s.len() as int).subrange(j - i, s.len() - i) == s.subrange(j, s.len() as int),
{
    assert(s.subrange(i, s.len() as int).subrange(j - i, s.len() - i) =~= s.subrange(j, s.len() as int));
}

/// Reads the bytes that a bus label stands for.
pub fn unescape(s: &str) -> (r: Option<Vec<u8>>)
    ensures
        r matches Some(v) ==> unescape_label(s@) == Some(v@),
        r is None ==> unescape_label(s@) is None,
{
    let n = s.unicode_len();
    let mut out: Vec<u8> = Vec::new();
    let mut i: usize = 0;
    assert(s@.subrange(0, n as int) =~= s@);
    while i < n
        invariant
            n == s@.len(),
            i <= n,
            unescape_label(s@) == match unescape_label(s@.subrange(i as int, n as int)) {
                Some(rest) => Some(out@ + rest),
                None => None::<Seq<u8>>,
            },
        decreases n - i,
    {
        let ghost t = s@.subrange(i as int, n as int);
        let c = s.get_char(i);
        if c == '_' {
            if n - i < 3 {
                return None;
            }
            let h = hex_digit(s.get_char(i + 1));
            let l = hex_digit(s.get_char(i + 2));
            proof {
                lemma_unescape_step(s@, i as int, i + 3);
            }
            match (h, l) {
                (Some(h), Some(l)) => {
                    proof {
                        match unescape_label(s@.subrange(i + 3, n as int)) {
                            Some(rest) => {
                                assert(out@ + (seq![(h * 16 + l) as u8] + rest) =~= out@.push(
                                    (h * 16 + l) as u8,
                                ) + rest);
                            },
                            None => {},
                        }
                    }
                    out.push(h * 16 + l);
                    i = i + 3;
                },
                _ => {
                    return None;
                },
            }
        } else if ('0' <= c && c <= '9') || ('a' <= c && c <= 'z') || ('A' <= c && c <= 'Z') {
            proof {
                lemma_unescape_step(s@, i as int, i + 1);
                match unescape_label(s@.subrange(i + 1, n as int)) {
                    Some(rest) => {
                        assert(out@ + (seq![c as u8] + rest) =~= out@.push(c as u8) + rest);
                    },
                    None => {},
                }
            }
            out.push(c as u8);
            i = i + 1;
        } else {
            return None;
        }
    }
    assert(out@ + Seq::<u8>::empty() =~= out@);
    Some(out)
}

proof fn lemma_decimal_grows(d: Seq<u8>, i: int, j: int)
    requires
        0 <= i <= j <= d.len(),
        all_digits(d),
    ensures
        decimal(d.subrange(0, i)) <= decimal(d.subrange(0, j)),
    decreases j - i,
{
    if i < j {
        lemma_decimal_grows(d, i, j - 1);
        assert(d.subrange(0, j).drop_last() =~= d.subrange(0, j - 1));
    }
}

/// The number that a nonempty run of decimal digits writes, where it fits a `u32`.
pub fn parse_decimal(d: &Vec<u8>) -> (r: Option<u32>)
    ensures
        r == (if d@.len() > 0 && all_digits(d@) && decimal(d@) <= u32::MAX {
            Some(decimal(d@) as u32)
        } else {
            None
        }),
{
    if d.len() == 0 {
        return None;
    }
    let mut i: usize = 0;
    let mut v: u32 = 0;
    while i < d.len()
        invariant
            i <= d@.len(),
            forall|k: int| 0 <= k < i ==> 48 <= #[trigger] d@[k] <= 57,
            v == decimal(d@.subrange(0, i as int)),
        decreases d@.len() - i,
    {
        let b = d[i];
        if b < 48 || b > 57 {
            return None;
        }
        assert(d@.subrange(0, i + 1).drop_last() =~= d@.subrange(0, i as int));
        if v > (u32::MAX - (b - 48) as u32) / 10 {
            proof {
                assert(decimal(d@.subrange(0, i + 1)) > u32::MAX);
                if all_digits(d@) {
                    lemma_decimal_grows(d@, i + 1, d@.len() as int);
                    assert(d@.subrange(0, d@.len() as int) =~= d@);
                }
            }
            return None;
        }
        v = v * 10 + (b - 48) as u32;
        i = i + 1;
    }
    assert(d@.subrange(0, d@.len() as int) =~= d@);
    Some(v)
}

/// The interface index named by a link object path.
pub fn parse_link_path(path: &str) -> (r: Option<u32>)
    ensures
        r == path_index(path@),
{
    let prefix = "/org/freedesktop/network1/link/";
    proof {
        reveal_strlit("/org/freedesktop/network1/link/");
    }
    let n = prefix.unicode_len();
    let len = path.unicode_len();
    if len <= n {
        return None;
    }
    if !str_eq(path.substring_char(0, n), prefix) {
        return None;
    }
    match unescape(path.substring_char(n, len)) {
        Some(d) => parse_decimal(&d),
        None => None,
    }
}

fn is_state_name(name: &str) -> (r: bool)
    ensures
        r == is_state_property(name@),
{
    str_eq(name, "OperationalState") || str_eq(name, "AdministrativeState")
}

/// Decodes a properties-changed signal into a link event.
pub fn decode(sig: &Signal) -> (r: Result<LinkEvent, DecodeError>)
    ensures
        r == decode_spec(*sig),
{
    if !str_eq(sig.interface.as_str(), "org.freedesktop.network1.Link") {
        return Err(DecodeError::Unrelated);
    }
    let mut k: usize = 0;
    while k < sig.changed.len() && !is_state_name(sig.changed[k].name.as_str())
        invariant
            k <= sig.changed@.len(),
            state_property_from(sig.changed@, 0) == state_property_from(sig.changed@, k as int),
        decreases sig.changed@.len() - k,
    {
        k = k + 1;
    }
    if k == sig.changed.len() {
        return Err(DecodeError::Unrelated);
    }
    match &sig.changed[k].value {
        PropValue::Other => Err(DecodeError::Malformed),
        PropValue::Text(v) => match parse_link_path(sig.path.as_str()) {
            None => Err(DecodeError::Malformed),
            Some(index) => match parse_state(v.as_str()) {
                None => Err(DecodeError::UnknownState),
                Some(state) => Ok(LinkEvent { index, state }),
            },
        },
    }
}

} // verus!
