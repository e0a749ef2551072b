//! IPv4 addresses and their dotted-decimal text.
//!
//! An address is written as four decimal numerals, one for each octet,
//! separated by dots: `203.0.113.5`. A numeral has no sign and no leading
//! zero, so every address has exactly one text, and a text is read back as an
//! address only if it is the text of one.

use crate::text::{decimal, decimal_string, digit, is_digit, to_chars};
use vstd::prelude::*;
use vstd::string::StringExecFns;

verus! {

broadcast use vstd::string::group_string_axioms;

/// An IPv4 address, given by its four octets.
#[derive(Clone, Copy, Debug, PartialEq, Eq, Hash, Structural)]
pub struct Ipv4Address {
    pub a: u8,
    pub b: u8,
    pub c: u8,
    pub d: u8,
}

/// The numeral of the octet `o` stands in `s` from `pos` up to `next`, and no
/// digit follows it.
pub open spec fn octet_run(s: Seq<char>, pos: int, o: u8, next: int) -> bool {
    &&& 0 <= pos < next <= s.len()
    &&& s.subrange(pos, next) == decimal(o as nat)
    &&& next < s.len() ==> !is_digit(s[next])
}

/// The numeral of an octet, digit by digit.
pub proof fn lemma_octet_decimal(o: u8)
    ensures
        o < 10 ==> decimal(o as nat) == seq![digit(o as int)],
        10 <= o < 100 ==> decimal(o as nat) == seq![digit(o as int / 10), digit(o as int % 10)],
        100 <= o ==> decimal(o as nat) == seq![
            digit(o as int / 100),
            digit(o as int / 10 % 10),
            digit(o as int % 10),
        ],
        1 <= decimal(o as nat).len() <= 3,
        forall|i: int| 0 <= i < decimal(o as nat).len() ==> is_digit(#[trigger] decimal(o as nat)[i]),
        decimal(o as nat).len() > 1 ==> decimal(o as nat)[0] != '0',
{
    reveal_with_fuel(decimal, 3);
}

/// Two octets with the same numeral are the same octet.
pub proof fn lemma_octet_decimal_injective(o1: u8, o2: u8)
    requires
        decimal(o1 as nat) == decimal(o2 as nat),
    ensures
        o1 == o2,
{
    lemma_octet_decimal(o1);
    lemma_octet_decimal(o2);
    let t1 = decimal(o1 as nat);
    let t2 = decimal(o2 as nat);
    assert(t1.len() == t2.len());
    assert(t1[0] == t2[0]);
    if t1.len() >= 2 {
        assert(t1[1] == t2[1]);
    }
    if t1.len() >= 3 {
        assert(t1[2] == t2[2]);
    }
}

/// At one place of a text at most one octet's numeral stands, and it ends at
/// one place only.
pub proof fn lemma_octet_run_unique(s: Seq<char>, pos: int, o1: u8, n1: int, o2: u8, n2: int)
    requires
        octet_run(s, pos, o1, n1),
        octet_run(s, pos, o2, n2),
    ensures
        o1 == o2,
        n1 == n2,
{
    lemma_octet_decimal(o1);
    lemma_octet_decimal(o2);
    lemma_octet_decimal_injective(o1, o2);
}

impl Ipv4Address {
    /// The dotted-decimal text of the address.
    pub open spec fn text(self) -> Seq<char> {
        decimal(self.a as nat) + seq!['.'] + decimal(self.b as nat) + seq!['.'] + decimal(
            self.c as nat,
        ) + seq!['.'] + decimal(self.d as nat)
    }

    /// The address that `s` is the text of, if it is the text of one.
    pub open spec fn parsed(s: Seq<char>) -> Option<Ipv4Address> {
        if exists|ip: Ipv4Address| ip.text() == s {
            Some(choose|ip: Ipv4Address| ip.text() == s)
        } else {
            None
        }
    }

    /// Whether the address lies in one of the ranges set aside for private
    /// networks: `10.0.0.0/8`, `172.16.0.0/12` and `192.168.0.0/16`.
    pub open spec fn private(self) -> bool {
        ||| self.a == 10
        ||| self.a == 172 && 16 <= self.b <= 31
        ||| self.a == 192 && self.b == 168
    }

    /// Whether the address lies in the loopback range `127.0.0.0/8`.
    pub open spec fn loopback(self) -> bool {
        self.a == 127
    }

    /// The address with the octets `a`, `b`, `c` and `d`, in this order.
    pub fn new(a: u8, b: u8, c: u8, d: u8) -> (ip: Ipv4Address)
        ensures
            ip == (Ipv4Address { a, b, c, d }),
    {
        Ipv4Address { a, b, c, d }
    }

    /// The four octets, first to last.
    pub fn octets(&self) -> (r: [u8; 4])
        ensures
            r@ == seq![self.a, self.b, self.c, self.d],
    {
        [self.a, self.b, self.c, self.d]
    }

    /// Tells whether the address belongs to a private network.
    pub fn is_private(&self) -> (r: bool)
        ensures
            r == self.private(),
    {
        self.a == 10 || (self.a == 172 && 16 <= self.b && self.b <= 31) || (self.a == 192
            && self.b == 168)
    }

    /// Tells whether the address is a loopback address.
    pub fn is_loopback(&self) -> (r: bool)
        ensures
            r == self.loopback(),
    {
        self.a == 127
    }

    /// Writes the address in dotted-decimal form.
    pub fn to_string(&self) -> (r: String)
        ensures
            r@ == self.text(),
    {
        proof {
            reveal_strlit(".");
        }
        let mut r = decimal_string(self.a as u128);
        r.append(".");
        r.append(decimal_string(self.b as u128).as_str());
        r.append(".");
        r.append(decimal_string(self.c as u128).as_str());
        r.append(".");
        r.append(decimal_string(self.d as u128).as_str());
        r
    }

    /// Reads an address from its dotted-decimal text. Any other text,
    /// whatever it holds besides (white space around it, a sign, a leading
    /// zero, a fifth numeral), is no address.
    pub fn parse(text: &str) -> (r: Option<Ipv4Address>)
        ensures
            r == Ipv4Address::parsed(text@),
            r matches Some(ip) ==> text@ == ip.text(),
            r is None ==> forall|ip: Ipv4Address| ip.text() != text@,
    {
        let chars = to_chars(text);
        parse_chars(&chars)
    }
}

/// Numerals of octets in a row, with a dot between each two.
pub open spec fn dotted(octets: Seq<u8>) -> Seq<char>
    decreases octets.len(),
{
    if octets.len() == 0 {
        Seq::empty()
    } else if octets.len() == 1 {
        decimal(octets[0] as nat)
    } else {
        decimal(octets[0] as nat) + seq!['.'] + dotted(octets.drop_first())
    }
}

/// The text of an address is the row of the numerals of its four octets.
pub proof fn lemma_text_is_dotted(ip: Ipv4Address)
    ensures
        ip.text() == dotted(seq![ip.a, ip.b, ip.c, ip.d]),
{
    let v4 = seq![ip.a, ip.b, ip.c, ip.d];
    let v3 = seq![ip.b, ip.c, ip.d];
    let v2 = seq![ip.c, ip.d];
    let v1 = seq![ip.d];
    assert(v4.drop_first() =~= v3);
    assert(v3.drop_first() =~= v2);
    assert(v2.drop_first() =~= v1);
    assert(dotted(v2) == decimal(ip.c as nat) + seq!['.'] + dotted(v1));
    assert(dotted(v4) == decimal(ip.a as nat) + seq!['.'] + dotted(v3));
}

/// Where the rest of `s` from `pos` on is a row of numerals, the first of
/// them stands at `pos`, and after it the text ends or a dot and the row of
/// the others follow.
pub proof fn lemma_dotted_head(s: Seq<char>, pos: int, octets: Seq<u8>)
    requires
        0 <= pos <= s.len(),
        octets.len() >= 1,
        s.subrange(pos, s.len() as int) == dotted(octets),
    ensures
        ({
            let next = pos + decimal(octets[0] as nat).len();
            &&& octet_run(s, pos, octets[0], next)
            &&& octets.len() == 1 ==> next == s.len()
            &&& octets.len() > 1 ==> next < s.len() && s[next] == '.' && s.subrange(
                next + 1,
                s.len() as int,
            ) == dotted(octets.drop_first())
        }),
{
    let head = decimal(octets[0] as nat);
    let next = pos + head.len();
    let rest = s.subrange(pos, s.len() as int);
    lemma_octet_decimal(octets[0]);
    if octets.len() > 1 {
        let tail = dotted(octets.drop_first());
        assert(rest.len() == head.len() + 1 + tail.len());
        assert(s.subrange(pos, next) =~= head);
        assert(s[next] == rest[head.len() as int]);
        let after = s.subrange(next + 1, s.len() as int);
        assert forall|i: int| 0 <= i < after.len() implies after[i] == tail[i] by {
            assert(after[i] == rest[head.len() + 1 + i]);
        }
    }
}

/// Two addresses with the same text are the same address, and the text of an
/// address is read back as that address.
pub proof fn lemma_parsed_text(ip: Ipv4Address)
    ensures
        Ipv4Address::parsed(ip.text()) == Some(ip),
        forall|other: Ipv4Address| other.text() == ip.text() ==> other == ip,
{
    assert forall|other: Ipv4Address| other.text() == ip.text() implies other == ip by {
        lemma_text_is_dotted(ip);
        lemma_text_is_dotted(other);
        assert(ip.text().subrange(0, ip.text().len() as int) =~= ip.text());
        lemma_dotted_injective(
            ip.text(),
            0,
            seq![ip.a, ip.b, ip.c, ip.d],
            seq![other.a, other.b, other.c, other.d],
        );
    }
}

/// Two rows of equally many numerals that make the same text hold the same
/// octets.
pub proof fn lemma_dotted_injective(s: Seq<char>, pos: int, v: Seq<u8>, w: Seq<u8>)
    requires
        0 <= pos <= s.len(),
        v.len() == w.len(),
        v.len() >= 1,
        s.subrange(pos, s.len() as int) == dotted(v),
        s.subrange(pos, s.len() as int) == dotted(w),
    ensures
        v == w,
    decreases v.len(),
{
    lemma_dotted_head(s, pos, v);
    lemma_dotted_head(s, pos, w);
    let nv = pos + decimal(v[0] as nat).len();
    let nw = pos + decimal(w[0] as nat).len();
    lemma_octet_run_unique(s, pos, v[0], nv, w[0], nw);
    if v.len() > 1 {
        lemma_dotted_injective(s, nv + 1, v.drop_first(), w.drop_first());
        assert(w =~= seq![w[0]] + w.drop_first());
    }
}

/// Reads the numeral of an octet that starts at `pos` and ends where the
/// digits end.
fn read_octet(chars: &Vec<char>, pos: usize) -> (r: Option<(u8, usize)>)
    requires
        pos <= chars@.len(),
    ensures
        match r {
            Some((o, next)) => octet_run(chars@, pos as int, o, next as int),
            None => forall|o: u8, next: int| !octet_run(chars@, pos as int, o, next),
        },
{
    let n: usize = chars.len();
    let ghost s = chars@;
    if pos >= n {
        return None;
    }
    let d0: u8 = match digit_value(chars[pos]) {
        Some(d) => d,
        None => {
            assert forall|o: u8, next: int| !octet_run(s, pos as int, o, next) by {
                lemma_octet_decimal(o);
                if octet_run(s, pos as int, o, next) {
                    assert(s.subrange(pos as int, next)[0] == s[pos as int]);
                }
            }
            return None;
        },
    };
    let more1: Option<u8> = if pos + 1 < n {
        digit_value(chars[pos + 1])
    } else {
        None
    };
    let d1: u8 = match more1 {
        Some(d) => d,
        None => {
            proof {
                lemma_octet_decimal(d0);
                assert(s.subrange(pos as int, pos + 1) =~= seq![digit(d0 as int)]);
            }
            return Some((d0, pos + 1));
        },
    };
    if d0 == 0 {
        assert forall|o: u8, next: int| !octet_run(s, pos as int, o, next) by {
            lemma_octet_decimal(o);
        }
        return None;
    }
    let more2: Option<u8> = if pos + 2 < n {
        digit_value(chars[pos + 2])
    } else {
        None
    };
    let d2: u8 = match more2 {
        Some(d) => d,
        None => {
            let o: u8 = d0 * 10 + d1;
            proof {
                lemma_octet_decimal(o);
                assert(s.subrange(pos as int, pos + 2) =~= seq![
                    digit(d0 as int),
                    digit(d1 as int),
                ]);
            }
            return Some((o, pos + 2));
        },
    };
    let more3: bool = pos + 3 < n && digit_value(chars[pos + 3]).is_some();
    let value: u16 = (d0 as u16) * 100 + (d1 as u16) * 10 + (d2 as u16);
    if more3 || value > 255 {
        assert forall|o: u8, next: int| !octet_run(s, pos as int, o, next) by {
            lemma_octet_decimal(o);
        }
        return None;
    }
    let o: u8 = value as u8;
    proof {
        lemma_octet_decimal(o);
        assert(s.subrange(pos as int, pos + 3) =~= seq![
            digit(d0 as int),
            digit(d1 as int),
            digit(d2 as int),
        ]);
    }
    Some((o, pos + 3))
}

/// The value of the digit `c`, if `c` is a digit.
fn digit_value(c: char) -> (r: Option<u8>)
    ensures
        r is Some <==> is_digit(c),
        r matches Some(d) ==> d < 10 && c == digit(d as int),
{
    if c >= '0' && c <= '9' {
        Some((c as u8) - ('0' as u8))
    } else {
        None
    }
}

/// Tells whether a dot stands at `pos`.
fn dot_at(chars: &Vec<char>, pos: usize) -> (r: bool)
    ensures
        r == (pos < chars@.len() && chars@[pos as int] == '.'),
{
    pos < chars.len() && chars[pos] == '.'
}

/// Reads a row of `count` numerals of octets, with a dot between each two,
/// that starts at `pos` and runs to the end of the text.
fn read_dotted(chars: &Vec<char>, pos: usize, count: usize) -> (r: Option<Vec<u8>>)
    requires
        pos <= chars@.len(),
        count >= 1,
    ensures
        match r {
            Some(octets) => octets@.len() == count && chars@.subrange(
                pos as int,
                chars@.len() as int,
            ) == dotted(octets@),
            None => forall|octets: Seq<u8>|
                octets.len() == count ==> chars@.subrange(pos as int, chars@.len() as int)
                    != #[trigger] dotted(octets),
        },
    decreases count,
{
    let ghost s = chars@;
    let ghost rest = s.subrange(pos as int, s.len() as int);
    let n: usize = chars.len();
    let (o, next) = match read_octet(chars, pos) {
        Some(found) => found,
        None => {
            assert forall|octets: Seq<u8>| octets.len() == count implies rest != #[trigger] dotted(
                octets,
            ) by {
                if rest == dotted(octets) {
                    lemma_dotted_head(s, pos as int, octets);
                }
            }
            return None;
        },
    };
    if count == 1 {
        if next != n {
            assert forall|octets: Seq<u8>| octets.len() == count implies rest != #[trigger] dotted(
                octets,
            ) by {
                if rest == dotted(octets) {
                    lemma_dotted_head(s, pos as int, octets);
                    lemma_octet_run_unique(s, pos as int, o, next as int, octets[0], s.len() as int);
                }
            }
            return None;
        }
        let mut octets: Vec<u8> = Vec::new();
        octets.push(o);
        Some(octets)
    } else {
        if !dot_at(chars, next) {
            assert forall|octets: Seq<u8>| octets.len() == count implies rest != #[trigger] dotted(
                octets,
            ) by {
                if rest == dotted(octets) {
                    lemma_dotted_head(s, pos as int, octets);
                    lemma_octet_run_unique(
                        s,
                        pos as int,
                        o,
                        next as int,
                        octets[0],
                        pos + decimal(octets[0] as nat).len(),
                    );
                }
            }
            return None;
        }
        match read_dotted(chars, next + 1, count - 1) {
            Some(others) => {
                let mut octets: Vec<u8> = Vec::new();
                octets.push(o);
                let mut others = others;
                let ghost tail = others@;
                octets.append(&mut others);
                proof {
                    assert(octets@.drop_first() =~= tail);
                }
                Some(octets)
            },
            None => {
                assert forall|octets: Seq<u8>| octets.len() == count implies rest
                    != #[trigger] dotted(octets) by {
                    if rest == dotted(octets) {
                        lemma_dotted_head(s, pos as int, octets);
                        lemma_octet_run_unique(
                            s,
                            pos as int,
                            o,
                            next as int,
                            octets[0],
                            pos + decimal(octets[0] as nat).len(),
                        );
                    }
                }
                None
            },
        }
    }
}

/// Reads an address from the characters of its text.
fn parse_chars(chars: &Vec<char>) -> (r: Option<Ipv4Address>)
    ensures
        r == Ipv4Address::parsed(chars@),
        r matches Some(ip) ==> chars@ == ip.text(),
        r is None ==> forall|ip: Ipv4Address| ip.text() != chars@,
{
    let ghost s = chars@;
    assert(s.subrange(0, s.len() as int) =~= s);
    match read_dotted(chars, 0, 4) {
        Some(octets) => {
            let ip = Ipv4Address { a: octets[0], b: octets[1], c: octets[2], d: octets[3] };
            proof {
                assert(octets@ =~= seq![ip.a, ip.b, ip.c, ip.d]);
                lemma_text_is_dotted(ip);
                lemma_parsed_text(ip);
            }
            Some(ip)
        },
        None => {
            assert forall|ip: Ipv4Address| ip.text() != s by {
                lemma_text_is_dotted(ip);
            }
            None
        },
    }
}

} // verus!
