//! Socket-table lookup: resolve the owning uid of a local port.
//!
//! The kernel exposes one text table per transport protocol; each data line
//! holds whitespace-separated columns, with the local address as column 1
//! ("hex-ip:hex-port") and the owner uid as column 7. Reading the file is
//! the embedding's job; the lines arrive here as byte strings and the whole
//! lookup — tokenizing, hex and decimal numerals, the scan — is verified.

use vstd::prelude::*;

verus! {

/// ASCII whitespace separating the table's columns.
pub open spec fn spec_is_space(b: u8) -> bool {
    b == 32 || b == 9 || b == 10 || b == 13
}

/// Whether one byte is ASCII whitespace.
pub fn is_space(b: u8) -> (r: bool)
    ensures
        r == spec_is_space(b),
{
    b == 32 || b == 9 || b == 10 || b == 13
}

/// Whitespace-separated tokens of `s` after `cur` and `acc` were already
/// gathered: the worker behind `spec_tokens`.
pub open spec fn spec_tokens_rec(s: Seq<u8>, cur: Seq<u8>, acc: Seq<Seq<u8>>) -> Seq<Seq<u8>>
    decreases s.len(),
{
    if s.len() == 0 {
        if cur.len() == 0 {
            acc
        } else {
            acc.push(cur)
        }
    } else if spec_is_space(s[0]) {
        spec_tokens_rec(
            s.drop_first(),
            Seq::empty(),
            if cur.len() == 0 {
                acc
            } else {
                acc.push(cur)
            },
        )
    } else {
        spec_tokens_rec(s.drop_first(), cur.push(s[0]), acc)
    }
}

/// The whitespace-separated tokens of one line; empty tokens do not appear.
pub open spec fn spec_tokens(s: Seq<u8>) -> Seq<Seq<u8>> {
    spec_tokens_rec(s, Seq::empty(), Seq::empty())
}

/// Split one line into its whitespace-separated tokens.
pub fn tokenize(line: &Vec<u8>) -> (toks: Vec<Vec<u8>>)
    ensures
        toks.deep_view() == spec_tokens(line@),
{
    let mut toks: Vec<Vec<u8>> = Vec::new();
    let mut cur: Vec<u8> = Vec::new();
    let mut i: usize = 0;
    proof {
        assert(line@.skip(0) =~= line@);
        assert(toks.deep_view() =~~= Seq::<Seq<u8>>::empty());
        assert(cur@ =~= Seq::<u8>::empty());
    }
    while i < line.len()
        invariant
            i <= line@.len(),
            spec_tokens(line@) == spec_tokens_rec(line@.skip(i as int), cur@, toks.deep_view()),
        decreases line@.len() - i,
    {
        proof {
            assert(line@.skip(i as int)[0] == line@[i as int]);
            assert(line@.skip(i as int).drop_first() =~= line@.skip(i as int + 1));
        }
        let ghost prev_toks: Seq<Seq<u8>> = toks.deep_view();
        let ghost prev_cur: Seq<u8> = cur@;
        let b = line[i];
        if is_space(b) {
            if cur.len() > 0 {
                toks.push(cur);
                cur = Vec::new();
                proof {
                    assert(toks.deep_view() =~~= prev_toks.push(prev_cur));
                }
            }
            proof {
                assert(cur@ =~= Seq::<u8>::empty());
            }
        } else {
            cur.push(b);
        }
        i += 1;
    }
    proof {
        assert(line@.skip(line@.len() as int) =~= Seq::<u8>::empty());
    }
    if cur.len() > 0 {
        let ghost prev_toks: Seq<Seq<u8>> = toks.deep_view();
        let ghost prev_cur: Seq<u8> = cur@;
        toks.push(cur);
        proof {
            assert(toks.deep_view() =~~= prev_toks.push(prev_cur));
        }
    }
    toks
}

/// Value of one hex digit, upper or lower case.
pub open spec fn spec_hex_digit(b: u8) -> Option<u8> {
    if 48 <= b <= 57 {
        Option::Some((b - 48) as u8)
    } else if 97 <= b <= 102 {
        Option::Some((b - 87) as u8)
    } else if 65 <= b <= 70 {
        Option::Some((b - 55) as u8)
    } else {
        Option::None
    }
}

fn hex_digit(b: u8) -> (r: Option<u8>)
    ensures
        r == spec_hex_digit(b),
{
    if 48 <= b && b <= 57 {
        Option::Some(b - 48)
    } else if 97 <= b && b <= 102 {
        Option::Some(b - 87)
    } else if 65 <= b && b <= 70 {
        Option::Some(b - 55)
    } else {
        Option::None
    }
}

/// Hex numeral value of `s` on top of the already-read value `acc`: `None`
/// on a non-digit or once the value leaves 16 bits.
pub open spec fn spec_hex_u16_rec(s: Seq<u8>, acc: int) -> Option<u16>
    decreases s.len(),
{
    if s.len() == 0 {
        Option::Some(acc as u16)
    } else {
        match spec_hex_digit(s[0]) {
            Option::Some(d) => if acc * 16 + d <= 0xffff {
                spec_hex_u16_rec(s.drop_first(), acc * 16 + d)
            } else {
                Option::None
            },
            Option::None => Option::None,
        }
    }
}

/// Value of a non-empty all-hex-digit numeral that fits in 16 bits.
pub open spec fn spec_hex_u16(s: Seq<u8>) -> Option<u16> {
    if s.len() == 0 {
        Option::None
    } else {
        spec_hex_u16_rec(s, 0)
    }
}

fn parse_hex_u16_tail(tok: &Vec<u8>, start: usize) -> (r: Option<u16>)
    requires
        start <= tok@.len(),
    ensures
        r == spec_hex_u16(tok@.skip(start as int)),
{
    let len = tok.len();
    if start >= len {
        return Option::None;
    }
    let mut acc: u32 = 0;
    let mut i: usize = start;
    proof {
        assert(tok@.skip(start as int).skip(0) =~= tok@.skip(start as int));
    }
    while i < len
        invariant
            start <= i <= len,
            len == tok@.len(),
            acc <= 0xffff,
            spec_hex_u16(tok@.skip(start as int)) == spec_hex_u16_rec(
                tok@.skip(i as int),
                acc as int,
            ),
        decreases len - i,
    {
        proof {
            assert(tok@.skip(i as int)[0] == tok@[i as int]);
            assert(tok@.skip(i as int).drop_first() =~= tok@.skip(i as int + 1));
        }
        match hex_digit(tok[i]) {
            Option::Some(d) => {
                let next = acc * 16 + (d as u32);
                if next > 0xffff {
                    return Option::None;
                }
                acc = next;
            },
            Option::None => {
                return Option::None;
            },
        }
        i += 1;
    }
    proof {
        assert(tok@.skip(len as int) =~= Seq::<u8>::empty());
    }
    Option::Some(acc as u16)
}

/// The hex port of a "hex-ip:hex-port" column: the numeral after the first
/// colon.
pub open spec fn spec_port_after_colon(tok: Seq<u8>) -> Option<u16>
    decreases tok.len(),
{
    if tok.len() == 0 {
        Option::None
    } else if tok[0] == 58 {
        spec_hex_u16(tok.drop_first())
    } else {
        spec_port_after_colon(tok.drop_first())
    }
}

fn token_port(tok: &Vec<u8>) -> (r: Option<u16>)
    ensures
        r == spec_port_after_colon(tok@),
{
    let mut i: usize = 0;
    proof {
        assert(tok@.skip(0) =~= tok@);
    }
    while i < tok.len()
        invariant
            i <= tok@.len(),
            spec_port_after_colon(tok@) == spec_port_after_colon(tok@.skip(i as int)),
        decreases tok@.len() - i,
    {
        proof {
            assert(tok@.skip(i as int)[0] == tok@[i as int]);
            assert(tok@.skip(i as int).drop_first() =~= tok@.skip(i as int + 1));
        }
        if tok[i] == 58 {
            return parse_hex_u16_tail(tok, i + 1);
        }
        i += 1;
    }
    proof {
        assert(tok@.skip(tok@.len() as int) =~= Seq::<u8>::empty());
    }
    Option::None
}

/// Value of one decimal digit.
pub open spec fn spec_dec_digit(b: u8) -> Option<u8> {
    if 48 <= b <= 57 {
        Option::Some((b - 48) as u8)
    } else {
        Option::None
    }
}

/// Decimal numeral value of `s` on top of `acc`: `None` on a non-digit or
/// once the value leaves 32 bits.
pub open spec fn spec_dec_u32_rec(s: Seq<u8>, acc: int) -> Option<u32>
    decreases s.len(),
{
    if s.len() == 0 {
        Option::Some(acc as u32)
    } else {
        match spec_dec_digit(s[0]) {
            Option::Some(d) => if acc * 10 + d <= 0xffff_ffff {
                spec_dec_u32_rec(s.drop_first(), acc * 10 + d)
            } else {
                Option::None
            },
            Option::None => Option::None,
        }
    }
}

/// Value of a non-empty all-decimal-digit numeral that fits in 32 bits.
pub open spec fn spec_dec_u32(s: Seq<u8>) -> Option<u32> {
    if s.len() == 0 {
        Option::None
    } else {
        spec_dec_u32_rec(s, 0)
    }
}

fn parse_dec_u32(tok: &Vec<u8>) -> (r: Option<u32>)
    ensures
        r == spec_dec_u32(tok@),
{
    let len = tok.len();
    if len == 0 {
        return Option::None;
    }
    let mut acc: u64 = 0;
    let mut i: usize = 0;
    proof {
        assert(tok@.skip(0) =~= tok@);
    }
    while i < len
        invariant
            i <= len,
            len == tok@.len(),
            acc <= 0xffff_ffff,
            spec_dec_u32(tok@) == spec_dec_u32_rec(tok@.skip(i as int), acc as int),
        decreases len - i,
    {
        proof {
            assert(tok@.skip(i as int)[0] == tok@[i as int]);
            assert(tok@.skip(i as int).drop_first() =~= tok@.skip(i as int + 1));
        }
        let b = tok[i];
        if 48 <= b && b <= 57 {
            let next = acc * 10 + ((b - 48) as u64);
            if next > 0xffff_ffff {
                return Option::None;
            }
            acc = next;
        } else {
            return Option::None;
        }
        i += 1;
    }
    proof {
        assert(tok@.skip(len as int) =~= Seq::<u8>::empty());
    }
    Option::Some(acc as u32)
}

/// The local port a data line names, if the line has all eight columns and
/// a readable port.
pub open spec fn spec_line_port(line: Seq<u8>) -> Option<u16> {
    let toks = spec_tokens(line);
    if toks.len() >= 8 {
        spec_port_after_colon(toks[1])
    } else {
        Option::None
    }
}

/// The owner uid a data line names, if the line has all eight columns and a
/// readable uid.
pub open spec fn spec_line_uid(line: Seq<u8>) -> Option<u32> {
    let toks = spec_tokens(line);
    if toks.len() >= 8 {
        spec_dec_u32(toks[7])
    } else {
        Option::None
    }
}

fn line_port(line: &Vec<u8>) -> (r: Option<u16>)
    ensures
        r == spec_line_port(line@),
{
    let toks = tokenize(line);
    if toks.len() >= 8 {
        proof {
            assert(toks.deep_view()[1] =~= toks@[1]@);
        }
        token_port(&toks[1])
    } else {
        Option::None
    }
}

fn line_uid(line: &Vec<u8>) -> (r: Option<u32>)
    ensures
        r == spec_line_uid(line@),
{
    let toks = tokenize(line);
    if toks.len() >= 8 {
        proof {
            assert(toks.deep_view()[7] =~= toks@[7]@);
        }
        parse_dec_u32(&toks[7])
    } else {
        Option::None
    }
}

/// The uid the data lines resolve `port` to: the first line naming the port
/// decides, with its uid column, readable or not.
pub open spec fn spec_scan_lines(lines: Seq<Seq<u8>>, port: u16) -> Option<u32>
    decreases lines.len(),
{
    if lines.len() == 0 {
        Option::None
    } else if spec_line_port(lines[0]) == Option::Some(port) {
        spec_line_uid(lines[0])
    } else {
        spec_scan_lines(lines.drop_first(), port)
    }
}

/// The uid a whole socket table (header line first) resolves `port` to.
pub open spec fn spec_find_uid(lines: Seq<Seq<u8>>, port: u16) -> Option<u32> {
    if lines.len() == 0 {
        Option::None
    } else {
        spec_scan_lines(lines.drop_first(), port)
    }
}

/// Resolve the owner uid of a local port over the lines of one socket
/// table. The first line is the table header and is skipped; the first data
/// line whose local-address column names `port` decides.
pub fn find_uid_by_port(lines: &Vec<Vec<u8>>, port: u16) -> (r: Option<u32>)
    ensures
        r == spec_find_uid(lines.deep_view(), port),
{
    let len = lines.len();
    if len == 0 {
        return Option::None;
    }
    let mut i: usize = 1;
    proof {
        assert(lines.deep_view().drop_first() =~~= lines.deep_view().skip(1));
    }
    while i < len
        invariant
            1 <= i <= len,
            len == lines@.len(),
            spec_find_uid(lines.deep_view(), port) == spec_scan_lines(
                lines.deep_view().skip(i as int),
                port,
            ),
        decreases len - i,
    {
        proof {
            assert(lines.deep_view().skip(i as int)[0] == lines.deep_view()[i as int]);
            assert(lines.deep_view()[i as int] =~= lines@[i as int]@);
            assert(lines.deep_view().skip(i as int).drop_first() =~~= lines.deep_view().skip(
                i as int + 1,
            ));
        }
        let p = line_port(&lines[i]);
        match p {
            Option::Some(found) => {
                if found == port {
                    return line_uid(&lines[i]);
                }
            },
            Option::None => {},
        }
        i += 1;
    }
    proof {
        assert(lines.deep_view().skip(len as int) =~~= Seq::<Seq<u8>>::empty());
    }
    Option::None
}

} // verus!
