//! The deposit instruction attached to an inbound token transfer.
//!
//! The instruction is a JSON object with a single tag naming the
//! instruction kind; the only recognized kind is `BridgeToAppchain`, whose
//! body names the destination account on the appchain:
//! `{"BridgeToAppchain":{"receiver_id_in_appchain":"..."}}`.
//! Whitespace may stand between any two tokens. A payload of any other
//! shape — including a destination string holding an escape or a control
//! character — is malformed, and the deposit it arrived with is returned.

use vstd::prelude::*;

verus! {

/// The JSON whitespace characters.
pub open spec fn is_json_ws(c: char) -> bool {
    c == ' ' || c == '\n' || c == '\r' || c == '\t'
}

/// The first position at or after `i` that holds no whitespace.
pub open spec fn spec_skip_ws(s: Seq<char>, i: int) -> int
    decreases s.len() - i,
{
    if 0 <= i < s.len() && is_json_ws(s[i]) {
        spec_skip_ws(s, i + 1)
    } else {
        i
    }
}

/// Whether `lit` occurs in `s` starting exactly at position `i`.
pub open spec fn spec_match_lit(s: Seq<char>, i: int, lit: Seq<char>) -> bool {
    &&& 0 <= i
    &&& i + lit.len() <= s.len()
    &&& s.subrange(i, i + lit.len()) == lit
}

/// The position of the closing quote of a string value that starts at `i`,
/// or `None` if an escape, a control character or the end of the payload
/// comes first.
pub open spec fn spec_scan_string_end(s: Seq<char>, i: int) -> Option<int>
    decreases s.len() - i,
{
    if !(0 <= i < s.len()) {
        None
    } else if s[i] == '"' {
        Some(i)
    } else if s[i] == '\\' || (s[i] as u32) < 32 {
        None
    } else {
        spec_scan_string_end(s, i + 1)
    }
}

/// A found closing quote lies within the payload, at or after the start.
pub proof fn lemma_scan_string_end_bounds(s: Seq<char>, i: int, e: int)
    requires
        0 <= i,
        spec_scan_string_end(s, i) == Some(e),
    ensures
        i <= e < s.len(),
    decreases s.len() - i,
{
    if 0 <= i < s.len() && s[i] != '"' && !(s[i] == '\\' || (s[i] as u32) < 32) {
        lemma_scan_string_end_bounds(s, i + 1, e);
    }
}

/// The destination account named by a well-formed deposit instruction, or
/// `None` if the payload is malformed or names another instruction kind.
pub open spec fn spec_parse_deposit_message(s: Seq<char>) -> Option<Seq<char>> {
    let i0: int = spec_skip_ws(s, 0);
    if !(i0 < s.len() && s[i0] == '{') {
        None
    } else {
        let i1: int = spec_skip_ws(s, i0 + 1);
        if !spec_match_lit(s, i1, "\"BridgeToAppchain\""@) {
            None
        } else {
            let i2: int = spec_skip_ws(s, i1 + "\"BridgeToAppchain\""@.len());
            if !(i2 < s.len() && s[i2] == ':') {
                None
            } else {
                let i3: int = spec_skip_ws(s, i2 + 1);
                if !(i3 < s.len() && s[i3] == '{') {
                    None
                } else {
                    let i4: int = spec_skip_ws(s, i3 + 1);
                    if !spec_match_lit(s, i4, "\"receiver_id_in_appchain\""@) {
                        None
                    } else {
                        let i5: int = spec_skip_ws(s, i4 + "\"receiver_id_in_appchain\""@.len());
                        if !(i5 < s.len() && s[i5] == ':') {
                            None
                        } else {
                            let i6: int = spec_skip_ws(s, i5 + 1);
                            if !(i6 < s.len() && s[i6] == '"') {
                                None
                            } else {
                                spec_parse_after_value_start(s, i6 + 1)
                            }
                        }
                    }
                }
            }
        }
    }
}

/// Continues the parse from the first character of the destination string
/// value: the value itself, then the two closing braces and the end.
pub open spec fn spec_parse_after_value_start(s: Seq<char>, start: int) -> Option<Seq<char>> {
    match spec_scan_string_end(s, start) {
        None => None,
        Some(e) => {
            let i7: int = spec_skip_ws(s, e + 1);
            if !(i7 < s.len() && s[i7] == '}') {
                None
            } else {
                let i8: int = spec_skip_ws(s, i7 + 1);
                if !(i8 < s.len() && s[i8] == '}') {
                    None
                } else if spec_skip_ws(s, i8 + 1) == s.len() {
                    Some(s.subrange(start, e))
                } else {
                    None
                }
            }
        },
    }
}

/// Whether `c` is a JSON whitespace character.
fn exec_is_json_ws(c: char) -> (b: bool)
    ensures
        b == is_json_ws(c),
{
    c == ' ' || c == '\n' || c == '\r' || c == '\t'
}

/// Skips whitespace in `s`, starting at `from`.
fn skip_ws_from(s: &str, from: usize) -> (r: usize)
    requires
        from <= s@.len(),
    ensures
        r == spec_skip_ws(s@, from as int),
        from <= r <= s@.len(),
{
    let n: usize = s.unicode_len();
    let mut i: usize = from;
    while i < n && exec_is_json_ws(s.get_char(i))
        invariant
            from <= i <= n,
            n == s@.len(),
            spec_skip_ws(s@, from as int) == spec_skip_ws(s@, i as int),
        decreases n - i,
    {
        i = i + 1;
    }
    i
}

/// Tests whether `lit` occurs in `s` starting exactly at `i`.
fn match_lit_at(s: &str, i: usize, lit: &str) -> (b: bool)
    ensures
        b == spec_match_lit(s@, i as int, lit@),
{
    let n: usize = s.unicode_len();
    let m: usize = lit.unicode_len();
    if i > n || m > n - i {
        return false;
    }
    let mut j: usize = 0;
    while j < m
        invariant
            0 <= j <= m,
            i + m <= n,
            n == s@.len(),
            m == lit@.len(),
            forall|k: int| 0 <= k < j ==> s@[i + k] == lit@[k],
        decreases m - j,
    {
        if s.get_char(i + j) != lit.get_char(j) {
            proof {
                assert(s@.subrange(i as int, i + lit@.len())[j as int] == s@[i + j]);
            }
            return false;
        }
        j = j + 1;
    }
    proof {
        assert(s@.subrange(i as int, i + lit@.len()) =~= lit@);
    }
    true
}

/// Finds the closing quote of the string value starting at `from`.
fn scan_string_end(s: &str, from: usize) -> (r: Option<usize>)
    requires
        from <= s@.len(),
    ensures
        match r {
            Some(e) => spec_scan_string_end(s@, from as int) == Some(e as int),
            None => spec_scan_string_end(s@, from as int) is None,
        },
{
    let n: usize = s.unicode_len();
    let mut i: usize = from;
    while i < n
        invariant
            from <= i <= n,
            n == s@.len(),
            spec_scan_string_end(s@, from as int) == spec_scan_string_end(s@, i as int),
        decreases n - i,
    {
        let c: char = s.get_char(i);
        if c == '"' {
            return Some(i);
        }
        if c == '\\' || (c as u32) < 32 {
            return None;
        }
        i = i + 1;
    }
    None
}

/// Parses the deposit instruction attached to a transfer and returns the
/// destination account it names, or `None` if the payload is malformed or
/// names an unrecognized instruction kind.
pub fn parse_deposit_message(msg: &str) -> (r: Option<String>)
    ensures
        match r {
            Some(id) => spec_parse_deposit_message(msg@) == Some(id@),
            None => spec_parse_deposit_message(msg@) is None,
        },
{
    let n: usize = msg.unicode_len();
    let i0: usize = skip_ws_from(msg, 0);
    if !(i0 < n && msg.get_char(i0) == '{') {
        return None;
    }
    let i1: usize = skip_ws_from(msg, i0 + 1);
    let key_tag = "\"BridgeToAppchain\"";
    if !match_lit_at(msg, i1, key_tag) {
        return None;
    }
    let i2: usize = skip_ws_from(msg, i1 + key_tag.unicode_len());
    if !(i2 < n && msg.get_char(i2) == ':') {
        return None;
    }
    let i3: usize = skip_ws_from(msg, i2 + 1);
    if !(i3 < n && msg.get_char(i3) == '{') {
        return None;
    }
    let i4: usize = skip_ws_from(msg, i3 + 1);
    let key_receiver = "\"receiver_id_in_appchain\"";
    if !match_lit_at(msg, i4, key_receiver) {
        return None;
    }
    let i5: usize = skip_ws_from(msg, i4 + key_receiver.unicode_len());
    if !(i5 < n && msg.get_char(i5) == ':') {
        return None;
    }
    let i6: usize = skip_ws_from(msg, i5 + 1);
    if !(i6 < n && msg.get_char(i6) == '"') {
        return None;
    }
    let e: usize = match scan_string_end(msg, i6 + 1) {
        Some(e) => e,
        None => {
            return None;
        },
    };
    proof {
        lemma_scan_string_end_bounds(msg@, i6 + 1 as int, e as int);
    }
    let i7: usize = skip_ws_from(msg, e + 1);
    if !(i7 < n && msg.get_char(i7) == '}') {
        return None;
    }
    let i8: usize = skip_ws_from(msg, i7 + 1);
    if !(i8 < n && msg.get_char(i8) == '}') {
        return None;
    }
    if skip_ws_from(msg, i8 + 1) != n {
        return None;
    }
    let receiver: String = msg.substring_char(i6 + 1, e).to_owned();
    Some(receiver)
}

} // verus!
