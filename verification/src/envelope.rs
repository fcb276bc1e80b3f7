use crate::text::all_dec_digits;
use crate::text::dec_digits;
use crate::text::dec_parsed;
use crate::text::lemma_dec_digits_all_digits;
use crate::text::lemma_dec_digits_no_leading_zero;
use crate::text::lemma_dec_value_of_digits;
use crate::text::parse_u64;
use crate::text::u64_to_string;
use crate::text::valid_dec_seq;
use vstd::prelude::*;

verus! {

// ---------------------------------------------------------------------------
// Escaping: the access token is an opaque string, but the signed envelope is
// framed by '.' and the payload by ':'. Escaping makes the token's region
// dot-free, so the envelope always splits at its first '.'.
// ---------------------------------------------------------------------------
/// How one character is written inside a payload: '.' and '\' are replaced by
/// two-character escapes, everything else stands for itself.
pub open spec fn escape_char(c: char) -> Seq<char> {
    if c == '.' {
        seq!['\\', 'd']
    } else if c == '\\' {
        seq!['\\', 'b']
    } else {
        seq![c]
    }
}

pub open spec fn escape_seq(s: Seq<char>) -> Seq<char>
    decreases s.len(),
{
    if s.len() == 0 {
        Seq::empty()
    } else {
        escape_char(s.first()) + escape_seq(s.drop_first())
    }
}

/// The inverse reading: rejects a bare '.', a trailing '\' and any unknown
/// escape, so exactly the image of `escape_seq` is accepted.
pub open spec fn unescape_seq(s: Seq<char>) -> Option<Seq<char>>
    decreases s.len(),
{
    if s.len() == 0 {
        Some(Seq::empty())
    } else if s.first() == '\\' {
        if s.len() < 2 {
            None
        } else if s[1] == 'd' {
            match unescape_seq(s.skip(2)) {
                Some(t) => Some(seq!['.'] + t),
                None => None,
            }
        } else if s[1] == 'b' {
            match unescape_seq(s.skip(2)) {
                Some(t) => Some(seq!['\\'] + t),
                None => None,
            }
        } else {
            None
        }
    } else if s.first() == '.' {
        None
    } else {
        match unescape_seq(s.drop_first()) {
            Some(t) => Some(seq![s.first()] + t),
            None => None,
        }
    }
}

pub proof fn lemma_escape_no_dot(s: Seq<char>)
    ensures
        forall|k: int| 0 <= k < escape_seq(s).len() ==> escape_seq(s)[k] != '.',
    decreases s.len(),
{
    if s.len() > 0 {
        lemma_escape_no_dot(s.drop_first());
        let e = escape_char(s.first());
        let rest = escape_seq(s.drop_first());
        assert forall|k: int| 0 <= k < escape_seq(s).len() implies escape_seq(s)[k] != '.' by {
            if k < e.len() {
                assert(escape_seq(s)[k] == e[k]);
            } else {
                assert(escape_seq(s)[k] == rest[k - e.len()]);
            }
        }
    }
}

pub proof fn lemma_escape_append(s: Seq<char>, c: char)
    ensures
        escape_seq(s.push(c)) == escape_seq(s) + escape_char(c),
    decreases s.len(),
{
    if s.len() == 0 {
        assert(s.push(c).first() == c);
        assert(s.push(c).drop_first() =~= Seq::<char>::empty());
        assert(escape_seq(Seq::<char>::empty()) == Seq::<char>::empty());
        assert(escape_seq(s.push(c)) =~= escape_char(c) + Seq::<char>::empty());
        assert(escape_char(c) + Seq::<char>::empty() =~= escape_char(c));
        assert(escape_seq(s) + escape_char(c) =~= escape_char(c));
    } else {
        assert(s.push(c).first() == s.first());
        assert(s.push(c).drop_first() =~= s.drop_first().push(c));
        lemma_escape_append(s.drop_first(), c);
        assert(escape_seq(s.push(c)) == escape_char(s.first()) + (escape_seq(s.drop_first())
            + escape_char(c)));
        assert(escape_char(s.first()) + (escape_seq(s.drop_first()) + escape_char(c)) =~= (
        escape_char(s.first()) + escape_seq(s.drop_first())) + escape_char(c));
    }
}

/// Unescaping undoes escaping: every token comes back from its payload form.
pub proof fn lemma_unescape_escape(s: Seq<char>)
    ensures
        unescape_seq(escape_seq(s)) == Some(s),
    decreases s.len(),
{
    if s.len() == 0 {
    } else {
        lemma_unescape_escape(s.drop_first());
        let c = s.first();
        let enc = escape_seq(s);
        if c == '.' || c == '\\' {
            assert(enc.skip(2) =~= escape_seq(s.drop_first()));
            assert(seq![if c == '.' { '.' } else { '\\' }] + s.drop_first() =~= s);
        } else {
            assert(enc.drop_first() =~= escape_seq(s.drop_first()));
            assert(seq![c] + s.drop_first() =~= s);
        }
    }
}

/// Only the escaped form of a token is ever accepted: a successful unescape
/// pins the input down.
pub proof fn lemma_unescape_canonical(x: Seq<char>, t: Seq<char>)
    requires
        unescape_seq(x) == Some(t),
    ensures
        x == escape_seq(t),
    decreases x.len(),
{
    if x.len() == 0 {
        assert(x =~= escape_seq(t));
    } else if x.first() == '\\' {
        let t2 = unescape_seq(x.skip(2))->Some_0;
        lemma_unescape_canonical(x.skip(2), t2);
        assert(t.drop_first() =~= t2);
        assert(x =~= escape_char(t.first()) + escape_seq(t.drop_first()));
        assert(escape_seq(t) =~= escape_char(t.first()) + escape_seq(t.drop_first()));
    } else {
        let t2 = unescape_seq(x.drop_first())->Some_0;
        lemma_unescape_canonical(x.drop_first(), t2);
        assert(t.drop_first() =~= t2);
        assert(x =~= escape_char(t.first()) + escape_seq(t.drop_first()));
        assert(escape_seq(t) =~= escape_char(t.first()) + escape_seq(t.drop_first()));
    }
}

/// Writes a token in its escaped payload form.
pub fn escape(s: &str) -> (r: String)
    ensures
        r@ == escape_seq(s@),
{
    proof {
        reveal_strlit("\\d");
        reveal_strlit("\\b");
    }
    let len = s.unicode_len();
    let mut out = String::new();
    let mut i: usize = 0;
    while i < len
        invariant
            0 <= i <= len,
            len == s@.len(),
            out@ == escape_seq(s@.take(i as int)),
        decreases len - i,
    {
        let c = s.get_char(i);
        proof {
            reveal_strlit("\\d");
            reveal_strlit("\\b");
            assert(s@.take(i + 1) =~= s@.take(i as int).push(s@[i as int]));
            lemma_escape_append(s@.take(i as int), s@[i as int]);
        }
        if c == '.' {
            out.append("\\d");
            assert("\\d"@ =~= seq!['\\', 'd']);
            assert(out@ =~= escape_seq(s@.take(i + 1)));
        } else if c == '\\' {
            out.append("\\b");
            assert("\\b"@ =~= seq!['\\', 'b']);
            assert(out@ =~= escape_seq(s@.take(i + 1)));
        } else {
            let one = char_to_string(c);
            out.append(one.as_str());
            assert(out@ =~= escape_seq(s@.take(i + 1)));
        }
        i = i + 1;
    }
    proof {
        assert(s@.take(len as int) =~= s@);
    }
    out
}

/// A one-character string.
pub fn char_to_string(c: char) -> (r: String)
    ensures
        r@ =~= seq![c],
{
    let mut s = String::new();
    char_push(&mut s, c);
    assert(s@ =~= Seq::<char>::empty().push(c));
    s
}

/// Relies on `alloc::string::String::push`: appends exactly the one character.
#[verifier::external_body]
fn char_push(s: &mut String, c: char)
    ensures
        final(s)@ == old(s)@.push(c),
{
    s.push(c);
}

pub open spec fn opt_prepend(head: Seq<char>, tail: Option<Seq<char>>) -> Option<Seq<char>> {
    match tail {
        Some(t) => Some(head + t),
        None => None,
    }
}

/// Reads a token back from its escaped payload form.
pub fn unescape(s: &str) -> (r: Option<String>)
    ensures
        match r {
            Some(t) => unescape_seq(s@) == Some(t@),
            None => unescape_seq(s@) is None,
        },
{
    let len = s.unicode_len();
    let mut out = String::new();
    let mut i: usize = 0;
    proof {
        assert(s@.skip(0) =~= s@);
        if unescape_seq(s@) is Some {
            assert(Seq::<char>::empty() + unescape_seq(s@)->Some_0 =~= unescape_seq(s@)->Some_0);
        }
    }
    while i < len
        invariant
            0 <= i <= len,
            len == s@.len(),
            unescape_seq(s@) == opt_prepend(out@, unescape_seq(s@.skip(i as int))),
        decreases len - i,
    {
        let c = s.get_char(i);
        let ghost rest = s@.skip(i as int);
        assert(rest.first() == s@[i as int]);
        if c == '\\' {
            if i + 1 >= len {
                assert(unescape_seq(rest) is None);
                return None;
            }
            let c2 = s.get_char(i + 1);
            assert(rest[1] == s@[i + 1]);
            proof {
                assert(rest.skip(2) =~= s@.skip(i + 2));
            }
            if c2 == 'd' {
                char_push(&mut out, '.');
                proof {
                    if unescape_seq(s@.skip(i + 2)) is Some {
                        let t = unescape_seq(s@.skip(i + 2))->Some_0;
                        assert(out@ + t =~= (out@.drop_last() + (seq!['.'] + t)));
                    }
                }
                i = i + 2;
            } else if c2 == 'b' {
                char_push(&mut out, '\\');
                proof {
                    if unescape_seq(s@.skip(i + 2)) is Some {
                        let t = unescape_seq(s@.skip(i + 2))->Some_0;
                        assert(out@ + t =~= (out@.drop_last() + (seq!['\\'] + t)));
                    }
                }
                i = i + 2;
            } else {
                assert(unescape_seq(rest) is None);
                return None;
            }
        } else if c == '.' {
            assert(unescape_seq(rest) is None);
            return None;
        } else {
            char_push(&mut out, c);
            proof {
                assert(rest.drop_first() =~= s@.skip(i + 1));
                if unescape_seq(s@.skip(i + 1)) is Some {
                    let t = unescape_seq(s@.skip(i + 1))->Some_0;
                    assert(out@ + t =~= (out@.drop_last() + (seq![c] + t)));
                }
            }
            i = i + 1;
        }
    }
    proof {
        assert(s@.skip(len as int) =~= Seq::<char>::empty());
        assert(unescape_seq(s@) == opt_prepend(out@, Some(Seq::<char>::empty())));
        assert(out@ + Seq::<char>::empty() =~= out@);
    }
    Some(out)
}

// ---------------------------------------------------------------------------
// The payload: issuance time, expiry and the escaped token, colon-separated.
// ---------------------------------------------------------------------------
/// The payload serialization of a credential's fields.
pub open spec fn payload_of(token: Seq<char>, issued_at: u64, expires_at: u64) -> Seq<char> {
    dec_digits(issued_at as nat) + seq![':'] + dec_digits(expires_at as nat) + seq![':']
        + escape_seq(token)
}

/// Index of the first occurrence of a character, or -1.
pub open spec fn char_index(s: Seq<char>, c: char) -> int
    decreases s.len(),
{
    if s.len() == 0 {
        -1
    } else if s.first() == c {
        0
    } else {
        let r = char_index(s.drop_first(), c);
        if r == -1 {
            -1
        } else {
            1 + r
        }
    }
}

pub proof fn lemma_char_index_at(s: Seq<char>, c: char, k: int)
    requires
        0 <= k < s.len(),
        s[k] == c,
        forall|m: int| 0 <= m < k ==> s[m] != c,
    ensures
        char_index(s, c) == k,
    decreases k,
{
    if k > 0 {
        lemma_char_index_at(s.drop_first(), c, k - 1);
    }
}

pub proof fn lemma_char_index_none(s: Seq<char>, c: char)
    requires
        forall|m: int| 0 <= m < s.len() ==> s[m] != c,
    ensures
        char_index(s, c) == -1,
    decreases s.len(),
{
    if s.len() > 0 {
        lemma_char_index_none(s.drop_first(), c);
    }
}

pub proof fn lemma_char_index_found(s: Seq<char>, c: char)
    requires
        char_index(s, c) >= 0,
    ensures
        char_index(s, c) < s.len(),
        s[char_index(s, c)] == c,
        forall|m: int| 0 <= m < char_index(s, c) ==> s[m] != c,
    decreases s.len(),
{
    if s.len() > 0 && s.first() != c {
        lemma_char_index_found(s.drop_first(), c);
        assert forall|m: int| 0 <= m < char_index(s, c) implies s[m] != c by {
            if m > 0 {
                assert(s[m] == s.drop_first()[m - 1]);
            }
        }
    }
}

/// What reading a payload back yields; only the canonical form of a
/// credential's fields is accepted.
pub open spec fn payload_parsed(s: Seq<char>) -> Option<(u64, u64, Seq<char>)> {
    let j1 = char_index(s, ':');
    if j1 < 0 {
        None
    } else {
        match dec_parsed(s.take(j1)) {
            None => None,
            Some(i) => {
                let rest = s.skip(j1 + 1);
                let j2 = char_index(rest, ':');
                if j2 < 0 {
                    None
                } else {
                    match dec_parsed(rest.take(j2)) {
                        None => None,
                        Some(e) => match unescape_seq(rest.skip(j2 + 1)) {
                            None => None,
                            Some(t) => Some((i, e, t)),
                        },
                    }
                }
            },
        }
    }
}

pub proof fn lemma_dec_digits_roundtrip(n: u64)
    ensures
        dec_parsed(dec_digits(n as nat)) == Some(n),
{
    lemma_dec_digits_all_digits(n as nat);
    lemma_dec_digits_no_leading_zero(n as nat);
    lemma_dec_value_of_digits(n as nat);
}

/// Reading a written payload returns the original fields.
pub proof fn lemma_payload_roundtrip(token: Seq<char>, issued_at: u64, expires_at: u64)
    ensures
        payload_parsed(payload_of(token, issued_at, expires_at)) == Some(
            (issued_at, expires_at, token),
        ),
{
    let di = dec_digits(issued_at as nat);
    let de = dec_digits(expires_at as nat);
    let s = payload_of(token, issued_at, expires_at);
    lemma_dec_digits_all_digits(issued_at as nat);
    lemma_dec_digits_all_digits(expires_at as nat);
    assert forall|m: int| 0 <= m < di.len() implies s[m] != ':' by {
        assert(s[m] == di[m]);
    }
    lemma_char_index_at(s, ':', di.len() as int);
    assert(s.take(di.len() as int) =~= di);
    lemma_dec_digits_roundtrip(issued_at);
    let rest = s.skip((di.len() + 1) as int);
    assert(rest =~= de + seq![':'] + escape_seq(token));
    assert forall|m: int| 0 <= m < de.len() implies rest[m] != ':' by {
        assert(rest[m] == de[m]);
    }
    lemma_char_index_at(rest, ':', de.len() as int);
    assert(rest.take(de.len() as int) =~= de);
    lemma_dec_digits_roundtrip(expires_at);
    assert(rest.skip((de.len() + 1) as int) =~= escape_seq(token));
    lemma_unescape_escape(token);
}

/// Only the canonical payload of a credential's fields parses: a successful
/// parse pins the payload text down.
pub proof fn lemma_payload_canonical(s: Seq<char>, issued_at: u64, expires_at: u64, token: Seq<char>)
    requires
        payload_parsed(s) == Some((issued_at, expires_at, token)),
    ensures
        s == payload_of(token, issued_at, expires_at),
{
    let j1 = char_index(s, ':');
    lemma_char_index_found(s, ':');
    crate::text::lemma_dec_canonical(s.take(j1));
    let rest = s.skip(j1 + 1);
    let j2 = char_index(rest, ':');
    lemma_char_index_found(rest, ':');
    crate::text::lemma_dec_canonical(rest.take(j2));
    lemma_unescape_canonical(rest.skip(j2 + 1), token);
    assert(s =~= s.take(j1) + seq![':'] + rest.take(j2) + seq![':'] + rest.skip(j2 + 1));
}

/// Writes the payload of a credential's fields.
pub fn encode_payload(token: &str, issued_at: u64, expires_at: u64) -> (r: String)
    ensures
        r@ == payload_of(token@, issued_at, expires_at),
{
    proof {
        reveal_strlit(":");
    }
    let mut out = u64_to_string(issued_at);
    out.append(":");
    let e = u64_to_string(expires_at);
    out.append(e.as_str());
    out.append(":");
    let esc = escape(token);
    out.append(esc.as_str());
    proof {
        assert(":"@ =~= seq![':']);
        assert(out@ =~= payload_of(token@, issued_at, expires_at));
    }
    out
}

/// Finds the first occurrence of a character at or after `from`.
pub fn find_char(s: &str, from: usize, c: char) -> (r: Option<usize>)
    requires
        from <= s@.len(),
    ensures
        match r {
            Some(j) => from <= j < s@.len() && s@[j as int] == c && forall|m: int|
                from <= m < j ==> s@[m] != c,
            None => forall|m: int| from <= m < s@.len() ==> s@[m] != c,
        },
{
    let len = s.unicode_len();
    let mut i: usize = from;
    while i < len
        invariant
            from <= i <= len,
            len == s@.len(),
            forall|m: int| from <= m < i ==> s@[m] != c,
        decreases len - i,
    {
        if s.get_char(i) == c {
            return Some(i);
        }
        i = i + 1;
    }
    None
}

/// Reads a payload back into its fields; any text that is not the canonical
/// payload of some fields is rejected.
pub fn parse_payload(s: &str) -> (r: Option<(u64, u64, String)>)
    ensures
        match r {
            Some(p) => payload_parsed(s@) == Some((p.0, p.1, p.2@)),
            None => payload_parsed(s@) is None,
        },
{
    let len = s.unicode_len();
    let j1 = match find_char(s, 0, ':') {
        Some(j) => j,
        None => {
            proof {
                lemma_char_index_none(s@, ':');
            }
            return None;
        },
    };
    proof {
        lemma_char_index_at(s@, ':', j1 as int);
    }
    let head1 = s.substring_char(0, j1);
    assert(head1@ =~= s@.take(j1 as int));
    let issued_at = match parse_u64(head1) {
        Some(v) => v,
        None => {
            return None;
        },
    };
    let ghost rest = s@.skip(j1 + 1);
    let j2 = match find_char(s, j1 + 1, ':') {
        Some(j) => j,
        None => {
            proof {
                assert(forall|m: int| 0 <= m < rest.len() ==> rest[m] == s@[j1 + 1 + m]);
                lemma_char_index_none(rest, ':');
            }
            return None;
        },
    };
    proof {
        assert(forall|m: int| 0 <= m < rest.len() ==> rest[m] == s@[j1 + 1 + m]);
        lemma_char_index_at(rest, ':', j2 - j1 - 1);
    }
    let head2 = s.substring_char(j1 + 1, j2);
    assert(head2@ =~= rest.take(j2 - j1 - 1));
    let expires_at = match parse_u64(head2) {
        Some(v) => v,
        None => {
            return None;
        },
    };
    let tail = s.substring_char(j2 + 1, len);
    assert(tail@ =~= rest.skip(j2 - j1 - 1 + 1));
    let token = match unescape(tail) {
        Some(t) => t,
        None => {
            return None;
        },
    };
    Some((issued_at, expires_at, token))
}

} // verus!
