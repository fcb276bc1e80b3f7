use vstd::prelude::*;

verus! {

/// Characters that stand for themselves in a query component.
pub open spec fn is_unreserved(c: char) -> bool {
    let u = c as u32;
    (65 <= u && u <= 90) || (97 <= u && u <= 122) || (48 <= u && u <= 57) || u == 45 || u == 46
        || u == 95 || u == 126
}

/// The character for one hexadecimal digit value, upper case.
pub open spec fn hex_char(d: int) -> char {
    if d == 0 {
        '0'
    } else if d == 1 {
        '1'
    } else if d == 2 {
        '2'
    } else if d == 3 {
        '3'
    } else if d == 4 {
        '4'
    } else if d == 5 {
        '5'
    } else if d == 6 {
        '6'
    } else if d == 7 {
        '7'
    } else if d == 8 {
        '8'
    } else if d == 9 {
        '9'
    } else if d == 10 {
        'A'
    } else if d == 11 {
        'B'
    } else if d == 12 {
        'C'
    } else if d == 13 {
        'D'
    } else if d == 14 {
        'E'
    } else {
        'F'
    }
}

/// How one ASCII character is written in a query component.
pub open spec fn pct_char(c: char) -> Seq<char> {
    if is_unreserved(c) {
        seq![c]
    } else {
        seq!['%', hex_char((c as u32 / 16) as int), hex_char((c as u32 % 16) as int)]
    }
}

/// The percent-encoding of an ASCII component.
pub open spec fn pct_encode_seq(s: Seq<char>) -> Seq<char>
    decreases s.len(),
{
    if s.len() == 0 {
        Seq::empty()
    } else {
        pct_char(s.first()) + pct_encode_seq(s.drop_first())
    }
}

proof fn lemma_pct_append(s: Seq<char>, c: char)
    ensures
        pct_encode_seq(s.push(c)) == pct_encode_seq(s) + pct_char(c),
    decreases s.len(),
{
    if s.len() == 0 {
        assert(s.push(c).first() == c);
        assert(s.push(c).drop_first() =~= Seq::<char>::empty());
        assert(pct_encode_seq(Seq::<char>::empty()) == Seq::<char>::empty());
        assert(pct_encode_seq(s.push(c)) =~= pct_char(c) + Seq::<char>::empty());
        assert(pct_char(c) + Seq::<char>::empty() =~= pct_char(c));
        assert(pct_encode_seq(s) + pct_char(c) =~= pct_char(c));
    } else {
        assert(s.push(c).first() == s.first());
        assert(s.push(c).drop_first() =~= s.drop_first().push(c));
        lemma_pct_append(s.drop_first(), c);
        assert(pct_encode_seq(s.push(c)) == pct_char(s.first()) + (pct_encode_seq(s.drop_first())
            + pct_char(c)));
        assert(pct_char(s.first()) + (pct_encode_seq(s.drop_first()) + pct_char(c)) =~= (pct_char(
            s.first(),
        ) + pct_encode_seq(s.drop_first())) + pct_char(c));
    }
}

/// The text of one hexadecimal digit.
fn hex_digit_str(d: u32) -> (r: &'static str)
    requires
        d < 16,
    ensures
        r@ =~= seq![hex_char(d as int)],
{
    proof {
        reveal_strlit("0");
        reveal_strlit("1");
        reveal_strlit("2");
        reveal_strlit("3");
        reveal_strlit("4");
        reveal_strlit("5");
        reveal_strlit("6");
        reveal_strlit("7");
        reveal_strlit("8");
        reveal_strlit("9");
        reveal_strlit("A");
        reveal_strlit("B");
        reveal_strlit("C");
        reveal_strlit("D");
        reveal_strlit("E");
        reveal_strlit("F");
    }
    if d == 0 {
        "0"
    } else if d == 1 {
        "1"
    } else if d == 2 {
        "2"
    } else if d == 3 {
        "3"
    } else if d == 4 {
        "4"
    } else if d == 5 {
        "5"
    } else if d == 6 {
        "6"
    } else if d == 7 {
        "7"
    } else if d == 8 {
        "8"
    } else if d == 9 {
        "9"
    } else if d == 10 {
        "A"
    } else if d == 11 {
        "B"
    } else if d == 12 {
        "C"
    } else if d == 13 {
        "D"
    } else if d == 14 {
        "E"
    } else {
        "F"
    }
}

/// Percent-encodes an ASCII component for use inside a query string.
pub fn pct_encode(s: &str) -> (r: String)
    requires
        vstd::utf8::is_ascii_chars(s@),
    ensures
        r@ == pct_encode_seq(s@),
{
    let len = s.unicode_len();
    let mut out = String::new();
    let mut i: usize = 0;
    while i < len
        invariant
            0 <= i <= len,
            len == s@.len(),
            vstd::utf8::is_ascii_chars(s@),
            out@ == pct_encode_seq(s@.take(i as int)),
        decreases len - i,
    {
        let c = s.get_char(i);
        proof {
            assert(s@.take(i + 1) =~= s@.take(i as int).push(s@[i as int]));
            lemma_pct_append(s@.take(i as int), s@[i as int]);
            assert('\u{0}' <= s@[i as int] <= '\u{7f}');
        }
        let u = c as u32;
        assert(u < 128);
        if (65 <= u && u <= 90) || (97 <= u && u <= 122) || (48 <= u && u <= 57) || u == 45 || u
            == 46 || u == 95 || u == 126 {
            let one = crate::envelope::char_to_string(c);
            out.append(one.as_str());
            assert(out@ =~= pct_encode_seq(s@.take(i + 1)));
        } else {
            proof {
                reveal_strlit("%");
            }
            out.append("%");
            assert("%"@ =~= seq!['%']);
            out.append(hex_digit_str(u / 16));
            out.append(hex_digit_str(u % 16));
            assert(out@ =~= pct_encode_seq(s@.take(i + 1)));
        }
        i = i + 1;
    }
    proof {
        assert(s@.take(len as int) =~= s@);
    }
    out
}

} // verus!
