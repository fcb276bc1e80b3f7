use crate::envelope::char_index;
use crate::envelope::find_char;
use crate::envelope::lemma_char_index_at;
use crate::envelope::lemma_char_index_none;
use crate::text::dec_digits;
use crate::text::dec_parsed;
use crate::text::parse_u64;
use crate::text::u64_to_string;
use vstd::prelude::*;

verus! {

/// An immutable snapshot of the authenticated user's profile, as the identity
/// provider reports it.
#[derive(Debug, PartialEq, Eq)]
pub struct Account {
    pub id: u64,
    pub username: String,
    pub discriminator: u32,
    pub avatar: String,
}

/// One collective the account belongs to.
#[derive(Debug, PartialEq, Eq)]
pub struct Guild {
    pub id: u64,
}

/// An authenticated identity: the profile together with the raw access token
/// that downstream calls use on the user's behalf.
pub struct User {
    pub token: String,
    pub user: Account,
}

// ---------------------------------------------------------------------------
// Profile codec: the cache stores blobs, so the profile has a canonical text
// form. The two free-form fields are length-prefixed, everything else is
// colon-separated decimal.
// ---------------------------------------------------------------------------
/// The cached text form of a profile.
pub open spec fn account_repr(id: u64, discriminator: u32, username: Seq<char>, avatar: Seq<char>) -> Seq<
    char,
> {
    dec_digits(id as nat) + seq![':'] + dec_digits(discriminator as nat) + seq![':'] + dec_digits(
        username.len(),
    ) + seq![':'] + username + seq![':'] + dec_digits(avatar.len()) + seq![':'] + avatar
}

/// What reading a cached profile back yields.
pub open spec fn account_parsed(s: Seq<char>) -> Option<(u64, u32, Seq<char>, Seq<char>)> {
    let j1 = char_index(s, ':');
    if j1 < 0 {
        None
    } else {
        match dec_parsed(s.take(j1)) {
            None => None,
            Some(id) => {
                let r1 = s.skip(j1 + 1);
                let j2 = char_index(r1, ':');
                if j2 < 0 {
                    None
                } else {
                    match dec_parsed(r1.take(j2)) {
                        None => None,
                        Some(disc) => if disc > u32::MAX {
                            None
                        } else {
                            let r2 = r1.skip(j2 + 1);
                            let j3 = char_index(r2, ':');
                            if j3 < 0 {
                                None
                            } else {
                                match dec_parsed(r2.take(j3)) {
                                    None => None,
                                    Some(ulen) => {
                                        let r3 = r2.skip(j3 + 1);
                                        if r3.len() < ulen + 1 || r3[ulen as int] != ':' {
                                            None
                                        } else {
                                            let username = r3.take(ulen as int);
                                            let r4 = r3.skip(ulen + 1);
                                            let j4 = char_index(r4, ':');
                                            if j4 < 0 {
                                                None
                                            } else {
                                                match dec_parsed(r4.take(j4)) {
                                                    None => None,
                                                    Some(alen) => {
                                                        let avatar = r4.skip(j4 + 1);
                                                        if avatar.len() != alen {
                                                            None
                                                        } else {
                                                            Some(
                                                                (
                                                                    id,
                                                                    disc as u32,
                                                                    username,
                                                                    avatar,
                                                                ),
                                                            )
                                                        }
                                                    },
                                                }
                                            }
                                        }
                                    },
                                }
                            }
                        },
                    }
                }
            },
        }
    }
}

/// Writes a profile in its cached text form.
pub fn encode_account(a: &Account) -> (r: String)
    ensures
        r@ == account_repr(a.id, a.discriminator, a.username@, a.avatar@),
{
    proof {
        reveal_strlit(":");
    }
    let mut out = u64_to_string(a.id);
    out.append(":");
    let disc = u64_to_string(a.discriminator as u64);
    out.append(disc.as_str());
    out.append(":");
    let ulen = u64_to_string(a.username.as_str().unicode_len() as u64);
    out.append(ulen.as_str());
    out.append(":");
    out.append(a.username.as_str());
    out.append(":");
    let alen = u64_to_string(a.avatar.as_str().unicode_len() as u64);
    out.append(alen.as_str());
    out.append(":");
    out.append(a.avatar.as_str());
    proof {
        assert(":"@ =~= seq![':']);
        assert(out@ =~= account_repr(a.id, a.discriminator, a.username@, a.avatar@));
    }
    out
}

/// Reads a cached profile back into its fields.
#[verifier::rlimit(100)]
pub fn decode_account(s: &str) -> (r: Option<Account>)
    ensures
        match r {
            Some(a) => account_parsed(s@) == Some((a.id, a.discriminator, a.username@, a.avatar@)),
            None => account_parsed(s@) is None,
        },
{
    let len = s.unicode_len();
    let j1 = match find_char(s, 0, ':') {
        Some(j) => j,
        None => {
            proof {
                lemma_char_index_none(s@, ':');
            }
            return None;
        },
    };
    proof {
        lemma_char_index_at(s@, ':', j1 as int);
    }
    let seg1 = s.substring_char(0, j1);
    assert(seg1@ =~= s@.take(j1 as int));
    let id = match parse_u64(seg1) {
        Some(v) => v,
        None => {
            return None;
        },
    };
    let ghost r1 = s@.skip(j1 + 1);
    let j2 = match find_char(s, j1 + 1, ':') {
        Some(j) => j,
        None => {
            proof {
                assert(forall|m: int| 0 <= m < r1.len() ==> r1[m] == s@[j1 + 1 + m]);
                lemma_char_index_none(r1, ':');
            }
            return None;
        },
    };
    proof {
        assert(forall|m: int| 0 <= m < r1.len() ==> r1[m] == s@[j1 + 1 + m]);
        lemma_char_index_at(r1, ':', j2 - j1 - 1);
    }
    let seg2 = s.substring_char(j1 + 1, j2);
    assert(seg2@ =~= r1.take(j2 - j1 - 1));
    let disc64 = match parse_u64(seg2) {
        Some(v) => v,
        None => {
            return None;
        },
    };
    if disc64 > u32::MAX as u64 {
        return None;
    }
    let discriminator = disc64 as u32;
    let ghost r2 = r1.skip(j2 - j1 - 1 + 1);
    proof {
        assert(forall|m: int| 0 <= m < r2.len() ==> r2[m] == s@[j2 + 1 + m]);
    }
    let j3 = match find_char(s, j2 + 1, ':') {
        Some(j) => j,
        None => {
            proof {
                lemma_char_index_none(r2, ':');
            }
            return None;
        },
    };
    proof {
        lemma_char_index_at(r2, ':', j3 - j2 - 1);
    }
    let seg3 = s.substring_char(j2 + 1, j3);
    assert(seg3@ =~= r2.take(j3 - j2 - 1));
    let ulen = match parse_u64(seg3) {
        Some(v) => v,
        None => {
            return None;
        },
    };
    let ghost r3 = r2.skip(j3 - j2 - 1 + 1);
    proof {
        assert(forall|m: int| 0 <= m < r3.len() ==> r3[m] == s@[j3 + 1 + m]);
        assert(r3.len() == len - j3 - 1);
    }
    // The username region must fit, with its closing separator behind it.
    if ((len - (j3 + 1)) as u64) < ulen {
        assert(r3.len() < ulen);
        return None;
    }
    let ulen_us = ulen as usize;
    if j3 + 1 + ulen_us >= len {
        assert(r3.len() < ulen + 1);
        return None;
    }
    if s.get_char(j3 + 1 + ulen_us) != ':' {
        assert(r3[ulen as int] == s@[j3 + 1 + ulen as int]);
        return None;
    }
    assert(r3[ulen as int] == ':');
    let username = s.substring_char(j3 + 1, j3 + 1 + ulen_us);
    assert(username@ =~= r3.take(ulen as int));
    let ghost r4 = r3.skip(ulen as int + 1);
    proof {
        assert(forall|m: int| 0 <= m < r4.len() ==> r4[m] == s@[j3 + 2 + ulen as int + m]);
    }
    let j4 = match find_char(s, j3 + 1 + ulen_us + 1, ':') {
        Some(j) => j,
        None => {
            proof {
                lemma_char_index_none(r4, ':');
            }
            return None;
        },
    };
    proof {
        lemma_char_index_at(r4, ':', j4 - (j3 + 2 + ulen as int));
    }
    let seg4 = s.substring_char(j3 + 1 + ulen_us + 1, j4);
    assert(seg4@ =~= r4.take(j4 - (j3 + 2 + ulen as int)));
    let alen = match parse_u64(seg4) {
        Some(v) => v,
        None => {
            return None;
        },
    };
    let avatar = s.substring_char(j4 + 1, len);
    assert(avatar@ =~= r4.skip(j4 - (j3 + 2 + ulen as int) + 1));
    if ((len - (j4 + 1)) as u64) != alen {
        assert(avatar@.len() != alen);
        return None;
    }
    Some(Account { id, username: String::from_str(username), discriminator, avatar: String::from_str(avatar) })
}

/// Reading a written profile returns the original fields.
#[verifier::rlimit(100)]
pub proof fn lemma_account_roundtrip(id: u64, discriminator: u32, username: Seq<char>, avatar: Seq<char>)
    requires
        username.len() <= u64::MAX,
        avatar.len() <= u64::MAX,
    ensures
        account_parsed(account_repr(id, discriminator, username, avatar)) == Some(
            (id, discriminator, username, avatar),
        ),
{
    let s = account_repr(id, discriminator, username, avatar);
    let di = dec_digits(id as nat);
    let dd = dec_digits(discriminator as nat);
    let du = dec_digits(username.len());
    let da = dec_digits(avatar.len());
    let rest1 = dd + seq![':'] + du + seq![':'] + username + seq![':'] + da + seq![':'] + avatar;
    assert(s =~= di + seq![':'] + rest1);
    lemma_dec_segment(id, rest1);
    let rest2 = du + seq![':'] + username + seq![':'] + da + seq![':'] + avatar;
    assert(rest1 =~= dd + seq![':'] + rest2);
    lemma_dec_segment(discriminator as u64, rest2);
    let rest3 = username + seq![':'] + da + seq![':'] + avatar;
    assert(rest2 =~= du + seq![':'] + rest3);
    lemma_dec_segment(username.len() as u64, rest3);
    assert(rest3[username.len() as int] == ':');
    assert(rest3.take(username.len() as int) =~= username);
    let rest4 = da + seq![':'] + avatar;
    assert(rest3.skip((username.len() + 1) as int) =~= rest4);
    lemma_dec_segment(avatar.len() as u64, avatar);
}

/// Reading one leading decimal field with its separator: the first colon of
/// `digits + ':' + rest` frames exactly the digits, whatever follows.
proof fn lemma_dec_segment(n: u64, rest: Seq<char>)
    ensures
        ({
            let s = dec_digits(n as nat) + seq![':'] + rest;
            let dl = dec_digits(n as nat).len() as int;
            char_index(s, ':') == dl && dec_parsed(s.take(dl)) == Some(n) && s.skip(dl + 1) == rest
        }),
{
    let di = dec_digits(n as nat);
    let s = di + seq![':'] + rest;
    crate::text::lemma_dec_digits_all_digits(n as nat);
    assert forall|m: int| 0 <= m < di.len() implies s[m] != ':' by {
        assert(s[m] == di[m]);
        assert(crate::text::is_dec_digit(di[m]));
    }
    assert(s[di.len() as int] == ':');
    lemma_char_index_at(s, ':', di.len() as int);
    assert(s.take(di.len() as int) =~= di);
    crate::envelope::lemma_dec_digits_roundtrip(n);
    assert(s.skip(di.len() as int + 1) =~= rest);
}

// ---------------------------------------------------------------------------
// Guild-list codec: the cached guild list is the member ids, colon-joined.
// ---------------------------------------------------------------------------
/// The ids of a guild list.
pub open spec fn guild_ids(gs: Seq<Guild>) -> Seq<u64> {
    gs.map_values(|g: Guild| g.id)
}

/// The cached text form of a guild list.
pub open spec fn guilds_repr(ids: Seq<u64>) -> Seq<char>
    decreases ids.len(),
{
    if ids.len() == 0 {
        Seq::empty()
    } else if ids.len() == 1 {
        dec_digits(ids[0] as nat)
    } else {
        dec_digits(ids[0] as nat) + seq![':'] + guilds_repr(ids.drop_first())
    }
}

/// What reading a cached guild list back yields.
pub open spec fn guilds_parsed(s: Seq<char>) -> Option<Seq<u64>>
    decreases s.len(),
{
    if s.len() == 0 {
        Some(Seq::empty())
    } else {
        let j = char_index(s, ':');
        if j < 0 {
            match dec_parsed(s) {
                None => None,
                Some(v) => Some(seq![v]),
            }
        } else if j + 1 <= s.len() {
            match dec_parsed(s.take(j)) {
                None => None,
                Some(v) => match guilds_parsed(s.skip(j + 1)) {
                    None => None,
                    Some(rest) => Some(seq![v] + rest),
                },
            }
        } else {
            None
        }
    }
}

/// Appending one id extends the text form by one colon-joined field.
proof fn lemma_guilds_repr_push(p: Seq<u64>, x: u64)
    ensures
        p.len() == 0 ==> guilds_repr(p.push(x)) == dec_digits(x as nat),
        p.len() > 0 ==> guilds_repr(p.push(x)) == guilds_repr(p) + seq![':'] + dec_digits(x as nat),
    decreases p.len(),
{
    if p.len() == 0 {
        assert(p.push(x) =~= seq![x]);
    } else {
        assert(p.push(x).drop_first() =~= p.drop_first().push(x));
        lemma_guilds_repr_push(p.drop_first(), x);
        if p.len() == 1 {
            assert(guilds_repr(p.push(x)) == dec_digits(p[0] as nat) + seq![':'] + dec_digits(
                x as nat,
            ));
        } else {
            assert(dec_digits(p[0] as nat) + seq![':'] + (guilds_repr(p.drop_first()) + seq![':']
                + dec_digits(x as nat)) =~= (dec_digits(p[0] as nat) + seq![':'] + guilds_repr(
                p.drop_first(),
            )) + seq![':'] + dec_digits(x as nat));
        }
    }
}

/// Writes a guild list in its cached text form.
pub fn encode_guilds(gs: &Vec<Guild>) -> (r: String)
    ensures
        r@ == guilds_repr(guild_ids(gs@)),
{
    proof {
        reveal_strlit(":");
    }
    let mut out = String::new();
    let mut i: usize = 0;
    while i < gs.len()
        invariant
            0 <= i <= gs.len(),
            out@ == guilds_repr(guild_ids(gs@).take(i as int)),
        decreases gs.len() - i,
    {
        proof {
            reveal_strlit(":");
            assert(":"@ =~= seq![':']);
            assert(guild_ids(gs@).take(i + 1) =~= guild_ids(gs@).take(i as int).push(gs@[i as int].id));
            lemma_guilds_repr_push(guild_ids(gs@).take(i as int), gs@[i as int].id);
        }
        if i > 0 {
            out.append(":");
        }
        let d = u64_to_string(gs[i].id);
        out.append(d.as_str());
        i = i + 1;
    }
    proof {
        assert(guild_ids(gs@).take(gs@.len() as int) =~= guild_ids(gs@));
    }
    out
}

pub open spec fn opt_ids_prepend(head: Seq<u64>, tail: Option<Seq<u64>>) -> Option<Seq<u64>> {
    match tail {
        Some(t) => Some(head + t),
        None => None,
    }
}

/// Reads a cached guild list back.
pub fn decode_guilds(s: &str) -> (r: Option<Vec<Guild>>)
    ensures
        match r {
            Some(v) => guilds_parsed(s@) == Some(guild_ids(v@)),
            None => guilds_parsed(s@) is None,
        },
{
    let len = s.unicode_len();
    let mut out: Vec<Guild> = Vec::new();
    let mut pos: usize = 0;
    proof {
        assert(s@.skip(0) =~= s@);
        assert(guild_ids(out@) =~= Seq::<u64>::empty());
        if guilds_parsed(s@) is Some {
            assert(Seq::<u64>::empty() + guilds_parsed(s@)->Some_0 =~= guilds_parsed(s@)->Some_0);
        }
    }
    while pos < len
        invariant
            0 <= pos <= len,
            len == s@.len(),
            guilds_parsed(s@) == opt_ids_prepend(guild_ids(out@), guilds_parsed(s@.skip(pos as int))),
        decreases len - pos,
    {
        let ghost rest = s@.skip(pos as int);
        match find_char(s, pos, ':') {
            Some(j) => {
                proof {
                    assert(forall|m: int| 0 <= m < rest.len() ==> rest[m] == s@[pos + m]);
                    lemma_char_index_at(rest, ':', j - pos);
                }
                let seg = s.substring_char(pos, j);
                assert(seg@ =~= rest.take(j - pos));
                match parse_u64(seg) {
                    Some(v) => {
                        proof {
                            assert(rest.skip(j - pos + 1) =~= s@.skip(j + 1));
                            if guilds_parsed(s@.skip(j + 1)) is Some {
                                let t = guilds_parsed(s@.skip(j + 1))->Some_0;
                                assert(guild_ids(out@.push(Guild { id: v })) =~= guild_ids(out@).push(v));
                                assert(guild_ids(out@).push(v) + t =~= guild_ids(out@) + (seq![v]
                                    + t));
                            }
                        }
                        out.push(Guild { id: v });
                        pos = j + 1;
                    },
                    None => {
                        return None;
                    },
                }
            },
            None => {
                proof {
                    assert(forall|m: int| 0 <= m < rest.len() ==> rest[m] == s@[pos + m]);
                    lemma_char_index_none(rest, ':');
                }
                let seg = s.substring_char(pos, len);
                assert(seg@ =~= rest);
                match parse_u64(seg) {
                    Some(v) => {
                        proof {
                            assert(guild_ids(out@.push(Guild { id: v })) =~= guild_ids(out@).push(
                                v,
                            ));
                            assert(guild_ids(out@).push(v) + Seq::<u64>::empty() =~= guild_ids(
                                out@,
                            ) + seq![v]);
                            assert(s@.skip(len as int) =~= Seq::<char>::empty());
                        }
                        out.push(Guild { id: v });
                        pos = len;
                    },
                    None => {
                        return None;
                    },
                }
            },
        }
    }
    proof {
        assert(s@.skip(len as int) =~= Seq::<char>::empty());
        assert(guild_ids(out@) + Seq::<u64>::empty() =~= guild_ids(out@));
    }
    Some(out)
}

/// Reading a written guild list returns the original ids.
pub proof fn lemma_guilds_roundtrip(ids: Seq<u64>)
    ensures
        guilds_parsed(guilds_repr(ids)) == Some(ids),
    decreases ids.len(),
{
    if ids.len() == 0 {
        assert(guilds_repr(ids) =~= Seq::<char>::empty());
        assert(guilds_parsed(guilds_repr(ids)) =~= Some(Seq::<u64>::empty()));
        assert(ids =~= Seq::<u64>::empty());
    } else if ids.len() == 1 {
        let d = dec_digits(ids[0] as nat);
        crate::text::lemma_dec_digits_all_digits(ids[0] as nat);
        crate::text::lemma_dec_digits_no_leading_zero(ids[0] as nat);
        assert forall|m: int| 0 <= m < d.len() implies d[m] != ':' by {
            assert(crate::text::is_dec_digit(d[m]));
        }
        lemma_char_index_none(d, ':');
        crate::envelope::lemma_dec_digits_roundtrip(ids[0]);
        assert(seq![ids[0]] =~= ids);
    } else {
        lemma_guilds_roundtrip(ids.drop_first());
        lemma_dec_segment(ids[0], guilds_repr(ids.drop_first()));
        assert(seq![ids[0]] + ids.drop_first() =~= ids);
    }
}

/// The canonical decimal form of a sequence length parses back to it.
proof fn lemma_dec_len_roundtrip(n: nat)
    requires
        n <= u64::MAX,
    ensures
        dec_parsed(dec_digits(n)) == Some(n as u64),
{
    crate::envelope::lemma_dec_digits_roundtrip(n as u64);
}

} // verus!
